//! Dialogs, panels, commands and settings pages that plugins ask for.

use cordanui::app::App;
use cordanui::collections::StrMap;
use cordanui::commands::{CommandInfo, CommandPoll, Loaded};
use cordanui::db::{get_plugin_settings, get_style_overrides, set_plugin_setting, DbValue, PluginRow, Statement};
use cordanui::handlers::Command;
use cordanui::keys::{KeyCode, KeyEvent, KeyModifiers};
use cordanui::manager::Installed;
use cordanui::plugin_ui::{PluginUiBridge, PluginUiEvent, UiStep};
use cordanui::popups::flatten;
use cordanui::settings::check_value;
use cordanui::style::StyleBridge;
use cordanui::theme::Theme;
use cordanui::types::{
    Manifest, Mode, PluginCommand, PluginModalKind, UiField, UiLevel, UiRequest, UiResponse, UiSpec,
    Widget,
};

fn app() -> App {
    App::new(vec![], vec![], Theme::builtin_dark())
}

fn key(code: KeyCode) -> KeyEvent {
    KeyEvent::new(code, KeyModifiers::none())
}

fn manifest(name: &str, description: &str) -> Manifest {
    Manifest {
        name: name.to_string(),
        version: "0.1.0".to_string(),
        description: description.to_string(),
        provider: false,
        tool: false,
        agent: false,
        theme: true,
        command: false,
        is_lua: true,
        binary: String::new(),
        binary_exists: false,
        models: None,
        ui: None,
        help: vec![],
        service_cmd: None,
    }
}

fn row(id: &str) -> PluginRow {
    PluginRow {
        id: id.to_string(),
        source: "test".to_string(),
        dir: format!("/plugins/{}", id),
        active: true,
        installed_at: String::new(),
    }
}

fn select_field() -> UiField {
    UiField {
        key: "variant".to_string(),
        label: "Variant".to_string(),
        kind: "select".to_string(),
        required: false,
        default: Some("rosepine-moon".to_string()),
        options: vec![
            "rosepine".to_string(),
            "rosepine-moon".to_string(),
            "rosepine-dawn".to_string(),
        ],
    }
}

fn stored_row(s: &Statement) -> Vec<DbValue> {
    s.params
        .iter()
        .map(|p| match p {
            DbValue::Text(t) => DbValue::Text(t.clone()),
            _ => DbValue::Null,
        })
        .collect()
}

#[test]
fn requests_round_trip_through_the_bridge() {
    let mut bridge = PluginUiBridge::new();
    assert!(bridge.try_take_event().is_none());

    bridge.submit(UiRequest::Confirm {
        title: "Sure?".to_string(),
        message: "delete everything".to_string(),
    });

    let request = match bridge.try_take_event().expect("request queued") {
        PluginUiEvent::Modal(request) => request,
        _ => panic!("expected a modal event"),
    };
    assert_eq!(request.title(), "Sure?");
    let mut app = app();
    app.poll_plugin_ui_requests(PluginUiEvent::Modal(request));
    assert!(matches!(app.submit_plugin_modal(), Some(UiResponse::Confirmed(true))));
    assert!(bridge.try_take_event().is_none());
}

#[test]
fn lua_input_dialog_round_trips_through_app() {
    let mut app = app();
    let step = app.poll_plugin_ui_requests(PluginUiEvent::Modal(UiRequest::Input {
        title: "Goal name".to_string(),
        placeholder: None,
    }));
    assert!(matches!(step, UiStep::Opened));
    assert!(matches!(app.mode, Mode::PluginModal), "modal should have opened");

    // Type and submit.
    for c in "hello".chars() {
        app.plugin_modal_push_char(c);
    }
    assert_eq!(app.plugin_modal_text(), Some("hello"));
    let name = match app.submit_plugin_modal() {
        Some(UiResponse::Text(Some(name))) => name,
        other => panic!("unexpected answer {:?}", other),
    };
    assert!(matches!(app.mode, Mode::Normal));
    assert_eq!(format!("typed:{}", name), "typed:hello");
}

#[test]
fn lua_multiselect_and_notify_flow() {
    let mut app = app();
    let step = app.poll_plugin_ui_requests(PluginUiEvent::Notify {
        level: UiLevel::Info,
        message: "scanning goals...".to_string(),
    });
    assert!(matches!(step, UiStep::Next { error: None }));
    assert_eq!(app.message.as_deref(), Some("scanning goals..."));

    app.poll_plugin_ui_requests(PluginUiEvent::Modal(UiRequest::MultiSelect {
        title: "Tags".to_string(),
        items: vec!["urgent".to_string(), "work".to_string(), "someday".to_string()],
        preselected: vec![],
    }));
    assert!(matches!(app.mode, Mode::PluginModal));

    // Cursor starts on item 0; select it, move to item 2, select it too:
    // 1-based indices 1+3 = 4.
    app.plugin_modal_toggle_current();
    app.plugin_modal_move_selection(2);
    app.plugin_modal_toggle_current();
    let picked = match app.submit_plugin_modal() {
        Some(UiResponse::Choices(Some(picked))) => picked,
        other => panic!("unexpected answer {:?}", other),
    };
    assert!(matches!(app.mode, Mode::Normal));
    let sum: usize = picked.iter().map(|i| i + 1).sum();
    assert_eq!(format!("picked-sum:{}", sum), "picked-sum:4");
}

#[test]
fn lua_confirm_dialog_cancel_resolves_false() {
    let mut app = app();
    app.poll_plugin_ui_requests(PluginUiEvent::Modal(UiRequest::Confirm {
        title: "Sure?".to_string(),
        message: "really?".to_string(),
    }));
    assert!(matches!(app.mode, Mode::PluginModal));

    let answer = match app.cancel_plugin_modal() {
        Some(UiResponse::Confirmed(answer)) => answer,
        other => panic!("unexpected answer {:?}", other),
    };
    assert_eq!(answer.to_string(), "false");
}

#[test]
fn lua_panel_lifecycle_through_app() {
    let mut app = app();
    let mut bridge = PluginUiBridge::new();
    let mut count = 0;
    let closed = format!("panel-closed:{}", count);
    bridge.open_panel("Counter".to_string());

    app.poll_plugin_panel(bridge.try_take_panel_command());
    assert!(matches!(app.mode, Mode::PluginPanel));
    assert!(app.plugin_panel.is_some());

    // Keys reach the plugin and change its state.
    for _ in 0..2 {
        match app.handle_plugin_panel_key(key(KeyCode::Char('+'))) {
            Command::PanelKey { name } => {
                assert_eq!(name, "+");
                count += 1;
                app.panel_key_handled(&name, true);
            }
            other => panic!("unexpected command {:?}", other),
        }
    }
    let widget = Widget::Text { content: format!("count={}", count), fg: None, bold: false };
    let drawn = format!("{:?}", flatten(&widget, &app.theme.colors));
    assert!(drawn.contains("count=2"), "draw saw stale state: {drawn}");

    // Unhandled esc closes the panel.
    app.panel_key_handled("esc", false);
    assert!(matches!(app.mode, Mode::Normal));
    assert_eq!(closed, "panel-closed:0");
}

#[test]
fn command_mode_runs_plugin_command_with_dialog() {
    let mut app = app();
    let mut styles = StyleBridge::new();
    app.open_command_mode(&vec![]);
    assert!(matches!(app.mode, Mode::Command));
    app.plugin_states.insert("rose-pine".to_string());
    app.plugin_commands.push(PluginCommand {
        plugin_name: "rose-pine".to_string(),
        name: "rose-pine.select".to_string(),
        desc: "Pick a flavor".to_string(),
    });
    for c in "select".chars() {
        app.input.push_char(c);
    }
    assert_eq!(app.command_matches().len(), 1);

    // Run it; the awaited pick appears as a modal.
    let cmd = app.command_matches().remove(0);
    assert!(app.execute_plugin_command(&cmd));
    let flavors = vec!["rose-pine".to_string(), "moon".to_string(), "dawn".to_string()];
    app.poll_plugin_ui_requests(PluginUiEvent::Modal(UiRequest::Pick {
        title: "Flavor".to_string(),
        items: flavors.clone(),
    }));
    assert!(matches!(app.mode, Mode::PluginModal), "pick dialog should be open");

    // Answer: choose item 2 ("moon", 0-based 1).
    if let Some(modal) = &mut app.plugin_modal {
        if let PluginModalKind::Pick { selected } = &mut modal.kind {
            *selected = 1;
        }
    }
    let choice = match app.submit_plugin_modal() {
        Some(UiResponse::Choice(Some(choice))) => choice,
        other => panic!("unexpected answer {:?}", other),
    };
    styles.set(true, "primary", "#ebbcba");

    let text = format!("switched to {}", flavors[choice]);
    app.poll_command_results(CommandPoll::Done {
        plugin_name: "rose-pine".to_string(),
        result: Ok(Some(text)),
    });
    assert_eq!(app.message.as_deref(), Some("switched to moon"));
    assert!(!app.command_running);

    // The style write from inside the command is committed.
    let writes = styles.apply_style_updates().unwrap();
    let rows: Vec<Vec<DbValue>> = writes.iter().map(stored_row).collect();
    styles.clear_dirty();
    let overrides = get_style_overrides(&rows);
    assert_eq!(
        overrides.get("primary").map(String::as_str),
        Some("#ebbcba"),
        "a persistent style change from inside the command should persist"
    );
    assert!(styles.apply_style_updates().is_none());
}

#[test]
fn config_select_field_cycles_and_persists() {
    let mut app = app();
    app.config_spec = Some(UiSpec { fields: vec![select_field()] });
    app.config_selected = 0;
    let mut rows: Vec<Vec<DbValue>> = vec![];

    // No stored value yet: cycling starts from the default.
    let s = app.cycle_config_field(1).unwrap();
    rows.push(stored_row(&set_plugin_setting("p", &s.key, &s.value)));
    app.config_cycled(&s);
    assert_eq!(app.config_values.get("variant").unwrap(), "rosepine-dawn");

    // Wraps forward past the end.
    let s = app.cycle_config_field(1).unwrap();
    rows.push(stored_row(&set_plugin_setting("p", &s.key, &s.value)));
    app.config_cycled(&s);
    assert_eq!(app.config_values.get("variant").unwrap(), "rosepine");

    // And backward past the start.
    let s = app.cycle_config_field(-1).unwrap();
    rows.push(stored_row(&set_plugin_setting("p", &s.key, &s.value)));
    app.config_cycled(&s);
    assert_eq!(app.config_values.get("variant").unwrap(), "rosepine-dawn");

    // Every cycle was persisted to the settings table.
    let stored = get_plugin_settings(StrMap::new(), &rows, "p");
    assert_eq!(stored.get("variant").map(String::as_str), Some("rosepine-dawn"));
}

#[test]
fn configure_key_invokes_plugin_owned_page() {
    let mut app = app();
    app.plugin_states.insert("rosepine-moon".to_string());
    app.installed_plugins.push(row("rosepine-moon"));

    // The user presses `c`.
    let calls = app.open_configure(
        Ok(manifest("rosepine-moon", "")),
        true,
        &vec![],
        &StrMap::new(),
        &StrMap::new(),
    );
    assert!(calls);

    // The plugin's awaited pick dialog appears.
    let variants = vec!["main".to_string(), "moon".to_string(), "dawn".to_string()];
    app.poll_plugin_ui_requests(PluginUiEvent::Modal(UiRequest::Pick {
        title: "Variant".to_string(),
        items: variants.clone(),
    }));
    assert!(
        matches!(app.mode, Mode::PluginModal),
        "plugin-owned configure should open its pick dialog"
    );

    // Choose "dawn" (0-based 2) and submit.
    app.plugin_modal_move_selection(2);
    let choice = match app.submit_plugin_modal() {
        Some(UiResponse::Choice(Some(choice))) => choice,
        other => panic!("unexpected answer {:?}", other),
    };
    let write = set_plugin_setting("rosepine-moon", "variant", &variants[choice]);
    app.poll_command_results(CommandPoll::Done {
        plugin_name: "rosepine-moon".to_string(),
        result: Ok(Some("variant saved".to_string())),
    });
    assert_eq!(app.message.as_deref(), Some("variant saved"));

    let stored = get_plugin_settings(StrMap::new(), &vec![stored_row(&write)], "rosepine-moon");
    assert_eq!(stored.get("variant").map(String::as_str), Some("dawn"));
}

#[test]
fn global_config_lists_plugin_configurators_and_validates() {
    let mut app = app();
    app.plugin_states.insert("rosepine-moon".to_string());
    app.installed_plugins.push(row("rosepine-moon"));
    let installed = vec![
        Installed {
            row: row("rosepine-moon"),
            manifest: Some(manifest("rosepine-moon", "Rose Pine themes")),
            settings: StrMap::new(),
            configures: true,
        },
        Installed {
            row: row("plain"),
            manifest: Some(manifest("plain", "No page of its own")),
            settings: StrMap::new(),
            configures: false,
        },
    ];

    app.open_global_config(&installed, &None, &None);
    assert!(matches!(app.mode, Mode::GlobalConfig));
    assert_eq!(app.global_spec.as_ref().unwrap().fields.len(), 2, "host sync fields present");
    assert_eq!(
        app.global_plugin_entries,
        vec![("rosepine-moon".to_string(), "Rose Pine themes".to_string())],
        "plugins with configurators are listed automatically"
    );
    assert_eq!(
        app.global_row_count(),
        4, // 2 sync fields + 1 plugin configurator + 1 danger-zone row
    );

    // Mismatched url/token is rejected before any write.
    app.global_values.insert("turso_token".to_string(), String::new());
    app.config_selected = 0;
    app.config_editing = Some("libsql://only-url.turso.io".to_string());
    assert!(app.commit_global_field().is_none());
    assert!(
        app.message.as_deref().unwrap_or_default().contains("must both be set"),
        "expected validation message, got {:?}",
        app.message
    );
}

#[test]
fn credentials_are_saved_together() {
    let mut app = app();
    app.open_global_config(&vec![], &None, &Some("tok".to_string()));
    app.config_selected = 0;
    app.config_editing = Some("libsql://db.turso.io".to_string());
    let c = app.commit_global_field().unwrap();
    assert_eq!(c.url, "libsql://db.turso.io");
    assert_eq!(c.token, "tok");
}

#[test]
fn a_second_dialog_is_refused() {
    let mut app = app();
    let ask = |title: &str| {
        PluginUiEvent::Modal(UiRequest::Confirm {
            title: title.to_string(),
            message: String::new(),
        })
    };
    app.poll_plugin_ui_requests(ask("one"));
    let step = app.poll_plugin_ui_requests(ask("two"));
    assert!(matches!(step, UiStep::Refuse(_)));
    assert_eq!(app.plugin_modal.as_ref().unwrap().request.title(), "one");
}

#[test]
fn toggling_an_item_twice_changes_nothing() {
    let mut app = app();
    app.poll_plugin_ui_requests(PluginUiEvent::Modal(UiRequest::MultiSelect {
        title: "Tags".to_string(),
        items: vec!["a".to_string(), "b".to_string()],
        preselected: vec![1, 7],
    }));
    app.plugin_modal_toggle_current();
    app.plugin_modal_toggle_current();
    assert!(matches!(
        app.submit_plugin_modal(),
        Some(UiResponse::Choices(Some(v))) if v == vec![1]
    ));
}

#[test]
fn dialog_keys_type_move_and_answer() {
    let mut app = app();
    app.poll_plugin_ui_requests(PluginUiEvent::Modal(UiRequest::Text {
        title: "Context".to_string(),
        placeholder: None,
        prefill: Some("a".to_string()),
    }));
    assert!(matches!(app.handle_plugin_modal_key(key(KeyCode::Char('b'))), Command::Nothing));
    app.handle_plugin_modal_key(KeyEvent::new(KeyCode::Enter, KeyModifiers::shift()));
    app.handle_plugin_modal_key(key(KeyCode::Char('c')));
    assert_eq!(app.plugin_modal_text(), Some("ab\nc"));
    assert!(matches!(app.handle_plugin_modal_key(key(KeyCode::Enter)), Command::SubmitModal));
    assert!(matches!(app.handle_plugin_modal_key(key(KeyCode::Esc)), Command::CancelModal));
}

#[test]
fn settings_values_are_checked() {
    let mut f = select_field();
    assert!(check_value(&f, "rosepine").is_none());
    assert!(check_value(&f, "elsewhere").is_some());
    f.kind = "number".to_string();
    f.options = vec![];
    assert!(check_value(&f, "12.5e3").is_none());
    assert!(check_value(&f, "twelve").is_some());
    f.kind = "text".to_string();
    f.required = true;
    assert!(check_value(&f, "").is_some());
    assert!(check_value(&f, "x").is_none());
}

#[test]
fn commands_are_listed_in_order_and_filtered() {
    let mut app = app();
    let command = |n: &str| CommandInfo { name: n.to_string(), desc: "does It".to_string() };
    let problems = app.load_plugin_states(&vec![
        Loaded { name: "b".to_string(), outcome: Ok(vec![command("b.two"), command("b.one")]) },
        Loaded { name: "x".to_string(), outcome: Err("broken".to_string()) },
        Loaded { name: "a".to_string(), outcome: Ok(vec![command("a.Go")]) },
    ]);
    assert_eq!(problems.len(), 1);
    assert!(problems[0].contains("broken"));
    app.open_command_mode(&vec![]);
    let names: Vec<String> = app.command_matches().iter().map(|c| c.name.clone()).collect();
    assert_eq!(names, vec!["a.Go", "b.one", "b.two"]);
    for c in "GO".chars() {
        app.input.push_char(c);
    }
    assert_eq!(app.command_matches().len(), 1);
    app.input.set_text("É nothing".to_string());
    assert_eq!(app.command_matches().len(), 0);
    assert!(matches!(app.handle_command_key(key(KeyCode::Enter)), Command::Nothing));
    assert_eq!(app.message.as_deref(), Some("no matching command"));
}

#[test]
fn a_running_plugin_is_not_called_twice() {
    let mut app = app();
    app.plugin_states.insert("p".to_string());
    assert!(app.spawn_plugin_call("p"));
    assert!(app.command_running);
    assert!(!app.spawn_plugin_call("p"));
    let error = app.poll_command_results(CommandPoll::Done {
        plugin_name: "p".to_string(),
        result: Err("boom".to_string()),
    });
    assert!(error.unwrap().contains("boom"));
    assert!(app.plugin_states.contains("p"));
    assert!(!app.command_running);
}

#[test]
fn an_empty_form_can_be_left() {
    let mut app = app();
    app.config_spec = Some(UiSpec { fields: vec![] });
    app.mode = Mode::PluginConfigure { plugin: "p".to_string() };
    for code in [KeyCode::Enter, KeyCode::Char(' '), KeyCode::Down, KeyCode::Up] {
        assert!(matches!(app.handle_key(key(code)), Command::Nothing));
        assert!(app.config_editing.is_none());
        assert_eq!(app.config_selected, 0);
    }
    app.handle_key(key(KeyCode::Esc));
    assert!(matches!(app.mode, Mode::PluginManager { .. }));
}

#[test]
fn an_empty_choice_can_be_left() {
    let mut app = app();
    app.poll_plugin_ui_requests(PluginUiEvent::Modal(UiRequest::Pick {
        title: "Nothing".to_string(),
        items: vec![],
    }));
    for code in [KeyCode::Down, KeyCode::Up, KeyCode::Char('j')] {
        assert!(matches!(app.handle_key(key(code)), Command::Nothing));
    }
    assert!(matches!(app.handle_key(key(KeyCode::Esc)), Command::CancelModal));
    let exit = KeyEvent::new(KeyCode::Char('c'), KeyModifiers::control());
    assert!(matches!(app.handle_key(exit), Command::Quit));
}
