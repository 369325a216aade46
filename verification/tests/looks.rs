//! Colors, themes, and what the screen shows.

use cordanui::app::App;
use cordanui::forms::{render_agent_running, render_full_result, render_move_picker};
use cordanui::help::step_around;
use cordanui::pages::{
    render_confirm_delete_sheet, render_delete_confirm, render_help_overlay, render_plugin_manager,
    render_purge_confirm, text_rows,
};
use cordanui::popups::{cell_text, command_rect, flatten, render_command_matches, spinner};
use cordanui::schema::{AgentStatus, Goal, GoalSheet, GoalStatus};
use cordanui::screen::{overlay, render, Body, Overlay};
use cordanui::stats::{dates_at, dates_now, render_stats, Dates, Share, Shares};
use cordanui::theme::{
    active_theme_id, color_entries, dark_palette, dark_seed_json, light_palette, parse_hex, rgb, Color,
    Theme,
};
use cordanui::types::{format_ago, PluginCommand, PluginPane, SyncStatus, Widget};
use cordanui::ui::{
    agent_name, label_of_buffer, render_goal_list, render_header, render_hint_bar, render_input_bar,
    render_sheets_bar, shown_buffer, truncate_str,
};
use cordanui::view::{centered_rect, Line, Page, Rect};

fn pair(var: &str, hex: &str) -> (String, String) {
    (var.to_string(), hex.to_string())
}

fn color_of(theme: &Theme, var: &str) -> Option<Color> {
    theme.colors.get(var)
}

fn goal(id: &str, status: GoalStatus) -> Goal {
    Goal {
        id: id.to_string(),
        title: format!("goal {}", id),
        description: None,
        status,
        parent_id: None,
        sheet_id: None,
        sort_order: 0,
        created_at: String::new(),
        updated_at: String::new(),
        completed_at: None,
        agent_status: None,
        agent_result: None,
        agent_progress: None,
        metadata: None,
        due_at: None,
        remind_at: None,
        repeat_rule: None,
    }
}

fn line_text(l: &Line) -> String {
    l.spans.iter().map(|s| s.text.as_str()).collect()
}

fn page_text(p: &Page) -> String {
    let lines: Vec<String> = p.lines.iter().map(line_text).collect();
    lines.join("\n")
}

#[test]
fn core_roles_resolve_to_builtin_defaults() {
    let theme = Theme::resolve("builtin".to_string(), &vec![], &vec![], &vec![]);
    assert_eq!(color_of(&theme, "primary"), Some(rgb(0x3b82f6)));
    assert_eq!(color_of(&theme, "background"), Some(rgb(0x0f172a)));
    // Old status tokens are gone; statuses use standard roles.
    assert_eq!(color_of(&theme, "success"), Some(rgb(0x22c55e)));
    // Unknown names fall back to onBackground.
    assert_eq!(color_of(&theme, "statusWip"), color_of(&theme, "onBackground"));
    assert_eq!(color_of(&theme, "totallyMadeUp"), color_of(&theme, "onBackground"));
}

#[test]
fn global_overrides_beat_themes_session_beats_global() {
    let theme_layer = vec![pair("primary", "#333333")];
    let global = vec![pair("primary", "#111111")];
    let theme = Theme::resolve("layers".to_string(), &theme_layer, &global, &vec![]);
    assert_eq!(color_of(&theme, "primary"), Some(rgb(0x111111)));

    // The session wins over the global override.
    let session = vec![pair("primary", "#222222")];
    let theme = Theme::resolve("layers".to_string(), &theme_layer, &global, &session);
    assert_eq!(color_of(&theme, "primary"), Some(rgb(0x222222)));

    // Clearing the global restores the builtin.
    let theme = Theme::resolve("layers".to_string(), &vec![], &vec![], &vec![]);
    assert_eq!(color_of(&theme, "primary"), Some(rgb(0x3b82f6)));
}

#[test]
fn a_theme_may_use_the_mobile_names() {
    let theme = Theme::resolve("m".to_string(), &vec![pair("bg", "#000000")], &vec![], &vec![]);
    let dark = dark_palette();
    assert_eq!(theme.colors.background, rgb(0x000000));
    assert_eq!(theme.colors.on_background, dark.on_background);
    assert_eq!(theme.colors.primary, dark.primary);
    assert_eq!(theme.colors.outline_variant, dark.outline_variant);
    // The role's own name wins, wherever it stands.
    let both = vec![pair("primary", "#111111"), pair("accent", "#222222")];
    let theme = Theme::resolve("m".to_string(), &both, &vec![], &vec![]);
    assert_eq!(theme.colors.primary, rgb(0x111111));
    // Overrides name roles alone.
    let theme = Theme::resolve("m".to_string(), &vec![], &vec![pair("bg", "#000000")], &vec![]);
    assert_eq!(theme.colors.background, dark.background);
}

#[test]
fn every_mobile_name_sets_its_role() {
    let names = vec![
        ("bg", "background"),
        ("text", "onBackground"),
        ("surface", "surface"),
        ("border", "surfaceVariant"),
        ("textDim", "onSurfaceVariant"),
        ("accent", "primary"),
        ("onAccent", "onPrimary"),
        ("statusDone", "success"),
        ("danger", "error"),
        ("statusAgent", "tertiary"),
        ("treeLine", "outline"),
        ("textFaint", "outlineVariant"),
    ];
    for (alias, role) in names {
        let theme =
            Theme::resolve("m".to_string(), &vec![pair(alias, "#010203")], &vec![], &vec![]);
        assert_eq!(color_of(&theme, role), Some(rgb(0x010203)), "{alias}");
    }
}

#[test]
fn custom_plugin_vars_resolve_and_fall_back() {
    // A plugin introduces a brand-new variable.
    let global = vec![pair("pluginX.glow", "#ff8800")];
    let theme = Theme::resolve("custom".to_string(), &vec![], &global, &vec![]);
    assert_eq!(
        color_of(&theme, "pluginX.glow"),
        Some(rgb(0xff8800)),
        "plugin-introduced vars must be resolvable"
    );
    // A different plugin's var nobody defined falls back to onBackground.
    assert_eq!(color_of(&theme, "pluginY.shimmer"), color_of(&theme, "onBackground"));
}

#[test]
fn colors_are_six_hex_digits() {
    assert_eq!(parse_hex("#ff8800"), Some(Color { r: 255, g: 136, b: 0 }));
    assert_eq!(parse_hex("#ff880"), None);
    assert_eq!(parse_hex("#gg8800"), None);
    // A color that cannot be read leaves the layer below.
    let theme = Theme::resolve(
        "t".to_string(),
        &vec![pair("primary", "#333333")],
        &vec![pair("primary", "red")],
        &vec![],
    );
    assert_eq!(color_of(&theme, "primary"), Some(rgb(0x333333)));
}

#[test]
fn theme_colors_are_read_from_json() {
    let entries = color_entries("{\"primary\":\"#010203\",\"n\":4}");
    assert_eq!(entries, vec![pair("primary", "#010203")]);
    assert_eq!(color_entries("not json"), vec![]);
    let theme = Theme::resolve("d".to_string(), &color_entries(&dark_seed_json()), &vec![], &vec![]);
    assert_eq!(color_of(&theme, "primary"), Some(dark_palette().primary));
    assert_ne!(light_palette().background, dark_palette().background);
}

#[test]
fn only_an_explicit_choice_selects_a_theme() {
    let chosen = Some("moon".to_string());
    assert_eq!(active_theme_id(&Some("explicit".to_string()), &chosen), "moon");
    assert_eq!(active_theme_id(&Some("system".to_string()), &chosen), "builtin-dark");
    assert_eq!(active_theme_id(&None, &None), "builtin-dark");
}

#[test]
fn long_texts_are_cut() {
    assert_eq!(truncate_str("short", 10), "short");
    assert_eq!(truncate_str("abcdefgh", 5).chars().count(), 5);
    assert!(truncate_str("abcdefgh", 5).ends_with('…'));
    assert_eq!(cell_text("ab", 4).chars().count(), 4);
}

#[test]
fn times_are_told_roughly() {
    assert_eq!(format_ago(0), "just now");
    assert!(format_ago(90).contains('1'));
    assert!(format_ago(7300).contains('2'));
}

#[test]
fn the_header_counts_what_is_done() {
    let mut app = App::new(
        vec![goal("a", GoalStatus::Completed), goal("b", GoalStatus::Pending)],
        vec![],
        Theme::builtin_dark(),
    );
    app.sync_status = SyncStatus::Synced { at: 5 };
    let text = line_text(&render_header(&app, 5));
    assert!(text.contains("1 / 2 done · 1 pending"), "{text}");
    assert!(text.contains("just now"), "{text}");
}

#[test]
fn the_goal_list_ends_with_a_row_for_a_new_goal() {
    let mut app = App::new(vec![goal("a", GoalStatus::Pending)], vec![], Theme::builtin_dark());
    let list = render_goal_list(&app, "2026-01-01T00:00:00Z");
    assert_eq!(list.pages.len(), 2);
    assert!(page_text(&list.pages[0]).contains("goal a"));
    assert_eq!(list.mark, "▶ ");
    assert_eq!(list.highlight.bg, Some(app.theme.colors.surface));
    assert!(list.highlight.bold && list.highlight.fg.is_none());
    app.toggle_details();
    let list = render_goal_list(&app, "2026-01-01T00:00:00Z");
    assert!(page_text(&list.pages[0]).contains("(no description)"));
}

#[test]
fn the_bars_follow_the_mode() {
    let mut app = App::new(vec![], vec![], Theme::builtin_dark());
    app.leader_pending = true;
    assert!(line_text(&render_input_bar(&app)).contains("LEADER"));
    let normal = line_text(&render_hint_bar(&app));
    app.leader_pending = false;
    app.start_add_goal(None);
    let adding = line_text(&render_hint_bar(&app));
    assert_ne!(normal, adding);
}

#[test]
fn buffers_are_tabs() {
    let mut app = App::new(vec![], vec![], Theme::builtin_dark());
    assert!(shown_buffer(&app).is_none());
    let id = app.create_plugin_buffer("chat", "Chat".to_string());
    app.buffer_manager.select_buffer(Some(id.clone()));
    assert_eq!(shown_buffer(&app), Some(id.clone()));
    assert!(line_text(&render_sheets_bar(&app)).contains(&label_of_buffer(&id)));
    app.remove_plugin_buffer(&id);
    assert!(shown_buffer(&app).is_none());
}

#[test]
fn the_selected_command_is_in_view() {
    let mut app = App::new(vec![], vec![], Theme::builtin_dark());
    assert!(render_command_matches(&app).is_none());
    for i in 0..20 {
        app.plugin_commands.push(PluginCommand {
            plugin_name: "p".to_string(),
            name: format!("p.{:02}", i),
            desc: String::new(),
        });
    }
    app.command_selected = 13;
    let popup = render_command_matches(&app).unwrap();
    assert_eq!(popup.title, " Commands ");
    assert_eq!(popup.border, app.theme.colors.outline);
    assert_eq!(popup.page.lines.len(), 8);
    let text = page_text(&popup.page);
    assert!(text.contains("▶ p.13"), "{text}");
}

#[test]
fn widgets_become_lines() {
    let c = dark_palette();
    let w = Widget::Column {
        children: vec![
            Widget::Text { content: "one".to_string(), fg: Some("primary".to_string()), bold: true },
            Widget::List { items: vec!["x".to_string(), "y".to_string()], highlight: Some(1) },
        ],
    };
    let page = flatten(&w, &c);
    assert_eq!(page.lines.len(), 3);
    assert_eq!(page.lines[0].spans[0].style.fg, Some(c.primary));
    assert!(page.lines[0].spans[0].style.bold);
}

#[test]
fn questions_name_what_is_deleted() {
    let popup = render_delete_confirm("a.b", &dark_palette());
    assert_eq!(popup.title, " Confirm Delete ");
    assert!(page_text(&popup.page).contains("a.b"));
    assert_eq!(popup.border, dark_palette().error);
    assert_eq!(render_purge_confirm(&dark_palette()).border, dark_palette().error);
    assert_eq!(render_confirm_delete_sheet("s", &dark_palette()).border, dark_palette().error);
}

#[test]
fn the_commands_stand_above_the_input_bar() {
    let popup = Rect { x: 5, y: 30, width: 60, height: 20 };
    let r = command_rect(popup, 8);
    assert_eq!((r.x, r.y, r.width, r.height), (5, 10, 60, 10));
    assert_eq!(command_rect(Rect { x: 0, y: 7, width: 9, height: 3 }, 1).y, 0);
}

#[test]
fn the_help_lists_the_key_bindings() {
    let mut app = App::new(vec![], vec![], Theme::builtin_dark());
    app.open_help(&vec![]);
    let popup = render_help_overlay(&app);
    assert!(page_text(&popup.page).contains("leader"));
}

#[test]
fn the_plugin_manager_shows_its_log() {
    let mut app = App::new(vec![], vec![], Theme::builtin_dark());
    app.open_plugin_manager(vec![]);
    let (input, popup) = render_plugin_manager(&app, PluginPane::List, 0);
    assert!(input.is_none());
    assert_eq!(popup.title, " Plugin Manager ");
    assert_eq!((popup.percent_x, popup.percent_y), (76, 72));
    assert_eq!(popup.border, app.theme.colors.primary);
    app.start_install_mode();
    let (input, _) = render_plugin_manager(&app, PluginPane::Install, 0);
    assert_eq!(input.unwrap().title, " install — GitHub link / owner/repo / terms ");
}

#[test]
fn agent_views_name_the_goal() {
    let mut g = goal("a", GoalStatus::AgentMode);
    g.agent_status = Some(AgentStatus::Completed);
    g.agent_result = Some("{\"content\":\"line one\\nline two\"}".to_string());
    let app = App::new(vec![g], vec![], Theme::builtin_dark());
    assert!(render_agent_running(&app, "a", 0).title.contains("goal a"));
    assert!(render_agent_running(&app, "missing", 0).title.contains('?'));
    assert!(render_full_result(&app, "missing", 0, 10).is_err());
    let (popup, footer) = render_full_result(&app, "a", 0, 10).unwrap();
    assert_eq!(line_text(&footer), " 4/4 lines — j/k scroll, Esc/q close ");
    assert!(popup.title.contains("goal a"));
    assert!(page_text(&popup.page).contains("line two"));
    assert_eq!(agent_name(AgentStatus::Failed), "failed");
}

#[test]
fn the_move_picker_starts_with_the_root() {
    let mut app = App::new(vec![goal("a", GoalStatus::Pending)], vec![], Theme::builtin_dark());
    app.open_move_picker("a".to_string());
    let popup = render_move_picker(&app);
    assert!(page_text(&popup.page).contains('∅'));
}

#[test]
fn the_spinner_turns() {
    assert_ne!(spinner(0), spinner(200));
    assert_eq!(spinner(0), spinner(1200));
}

#[test]
fn popups_are_centered() {
    let area = Rect { x: 0, y: 0, width: 100, height: 50 };
    let r = centered_rect(60, 50, area);
    assert!(r.width <= 60 && r.x >= 19);
    assert!(r.x + r.width <= 100 && r.y + r.height <= 50);
}

#[test]
fn tabs_go_around() {
    assert_eq!(step_around(2, 1, 3), 0);
    assert_eq!(step_around(0, -1, 3), 2);
    assert_eq!(step_around(1, -5, 3), 2);
}

#[test]
fn texts_are_split_into_rows() {
    assert_eq!(text_rows("a\nb\n"), vec!["a", "b"]);
    assert_eq!(text_rows(""), Vec::<String>::new());
}

fn share(filled: usize, percent: &str) -> Share {
    Share { filled, percent: percent.to_string() }
}

#[test]
fn statistics_count_every_goal_once() {
    let mut late = goal("late", GoalStatus::Pending);
    late.due_at = Some("2026-01-01T00:00:00Z".to_string());
    late.sheet_id = Some("s".to_string());
    let mut soon = goal("soon", GoalStatus::InProgress);
    soon.due_at = Some("2026-02-03T18:00:00Z".to_string());
    soon.repeat_rule = Some("weekly".to_string());
    soon.remind_at = Some("x".to_string());
    let mut done = goal("done", GoalStatus::Completed);
    done.due_at = Some("2026-01-01T00:00:00Z".to_string());
    let mut agent = goal("agent", GoalStatus::AgentMode);
    agent.agent_status = Some(AgentStatus::Queued);
    let sheet = GoalSheet {
        id: "s".to_string(),
        name: "work".to_string(),
        created_at: String::new(),
        deleted_at: None,
    };
    let app = App::new(vec![late, soon, done, agent], vec![sheet], Theme::builtin_dark());
    let s = app.stats_snapshot(&Dates {
        now: "2026-02-03T12:00:00Z".to_string(),
        today: "2026-02-03".to_string(),
        week: "2026-02-10T12:00:00Z".to_string(),
    });
    assert_eq!(s.total, 4);
    assert_eq!(s.pending + s.in_progress + s.completed + s.agent_mode, 4);
    assert_eq!((s.parents, s.children), (0, 0));
    // What is done is not overdue.
    assert_eq!((s.overdue, s.due_today, s.due_week, s.no_due), (1, 1, 1, 1));
    assert_eq!((s.repeat_none, s.repeat_weekly, s.remind_set), (3, 1, 1));
    assert_eq!(s.agent_queued, 1);
    assert_eq!(s.sheet_distribution, vec![("work".to_string(), 1)]);

    let shares = Shares {
        pending: share(4, "25.0"),
        in_progress: share(4, "25.0"),
        completed: share(4, "25.0"),
        agent_mode: share(4, "25.0"),
        sheets: vec![share(14, "100.0")],
    };
    let popup = render_stats(&s, &shares, "0.0", &dark_palette());
    assert_eq!(popup.title, " Stats ");
    let text = page_text(&popup.page);
    assert!(text.contains("  pending        1  ████░░░░░░░░░░  25.0%"), "{text}");
    assert!(text.contains("    work                   1  ██████████████ 100.0%"), "{text}");
    assert!(text.contains("    none    3  daily    0  weekly    1"), "{text}");
}

#[test]
fn the_screen_shows_a_buffer_in_place_of_the_goals() {
    let mut app = App::new(vec![goal("a", GoalStatus::Pending)], vec![], Theme::builtin_dark());
    let drawn = Widget::Text { content: "hello".to_string(), fg: None, bold: false };
    let screen = render(&app, &drawn, 0, "2026-01-01T00:00:00Z");
    assert!(matches!(&screen.body, Body::Goals(list) if list.pages.len() == 2));
    let id = app.create_plugin_buffer("chat", "Chat".to_string());
    app.buffer_manager.select_buffer(Some(id));
    app.reload(vec![goal("a", GoalStatus::Pending)]);
    match render(&app, &drawn, 0, "2026-01-01T00:00:00Z").body {
        Body::Buffer(page) => assert!(page_text(&page).contains("hello")),
        other => panic!("unexpected body {:?}", other),
    }
}

#[test]
fn the_overlay_follows_the_mode() {
    let mut app = App::new(vec![goal("a", GoalStatus::Pending)], vec![], Theme::builtin_dark());
    let panel = Widget::Column { children: vec![] };
    assert!(matches!(overlay(&app, &panel, 0, 10), Overlay::Nothing));
    app.start_delete();
    assert!(matches!(overlay(&app, &panel, 0, 10), Overlay::Popup(p) if p.title == " Confirm Delete "));
    app.cancel();
    app.open_stats();
    assert!(matches!(overlay(&app, &panel, 0, 10), Overlay::Stats));
    app.cancel();
    app.open_plugin_manager(vec![]);
    assert!(matches!(overlay(&app, &panel, 0, 10), Overlay::Manager { input: None, .. }));
}

#[test]
fn parents_are_counted_once() {
    let mut goals = vec![
        goal("a", GoalStatus::Pending),
        goal("b", GoalStatus::Pending),
        goal("c", GoalStatus::Pending),
        goal("d", GoalStatus::Pending),
    ];
    goals[1].parent_id = Some("a".to_string());
    goals[2].parent_id = Some("a".to_string());
    goals[3].parent_id = Some("c".to_string());
    let app = App::new(goals, vec![], Theme::builtin_dark());
    let s = app.stats_snapshot(&Dates {
        now: String::new(),
        today: String::new(),
        week: String::new(),
    });
    assert_eq!((s.parents, s.children), (2, 3));
}

#[test]
fn the_week_ends_seven_days_later() {
    let d = dates_at(951_782_399).unwrap();
    assert_eq!(d.now, "2000-02-28T23:59:59Z");
    assert_eq!(d.today, "2000-02-28");
    assert_eq!(d.week, "2000-03-06T23:59:59Z");
    // The last time that can be represented has no week after it.
    assert!(dates_at(8_210_266_876_799).is_none());
    let d = dates_now().unwrap();
    assert!(d.now.starts_with(&d.today) && d.today.len() == 10 && d.now < d.week);
}
