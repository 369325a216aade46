//! The goal list: rows, edits, moves, sheets and keys.

use cordanui::app::{cycle_goal, repeat_input, toggle_goal, App, RepeatInput};
use cordanui::collections::StrSet;
use cordanui::goals::{move_update, order_update, status_glyph};
use cordanui::handlers::Command;
use cordanui::keys::{KeyCode, KeyEvent, KeyModifiers};
use cordanui::schema::{Goal, GoalSheet, GoalStatus};
use cordanui::sheets::SheetManager;
use cordanui::theme::Theme;
use cordanui::time::{days_of, next_due_at, next_due_for_repeat};
use cordanui::tree::{descendant_ids, goals_below, ids_are_unique, partial_ids, rows_of, sort_goals};
use cordanui::types::Mode;

fn goal(id: &str, parent: Option<&str>, order: i64) -> Goal {
    Goal {
        id: id.to_string(),
        title: format!("goal {}", id),
        description: None,
        status: GoalStatus::Pending,
        parent_id: parent.map(|p| p.to_string()),
        sheet_id: None,
        sort_order: order,
        created_at: id.to_string(),
        updated_at: String::new(),
        completed_at: None,
        agent_status: None,
        agent_result: None,
        agent_progress: None,
        metadata: None,
        due_at: None,
        remind_at: None,
        repeat_rule: None,
    }
}

fn tree() -> Vec<Goal> {
    vec![
        goal("b", None, 1),
        goal("a", None, 0),
        goal("a.y", Some("a"), 1),
        goal("a.x", Some("a"), 0),
        goal("a.x.z", Some("a.x"), 0),
    ]
}

fn sheet(id: &str) -> GoalSheet {
    GoalSheet {
        id: id.to_string(),
        name: format!("sheet {}", id),
        created_at: String::new(),
        deleted_at: None,
    }
}

fn app() -> App {
    App::new(tree(), vec![sheet("s")], Theme::builtin_dark())
}

fn ids(app: &App) -> Vec<String> {
    app.flat_rows().iter().map(|r| r.goal.id.clone()).collect()
}

fn press(app: &mut App, code: KeyCode) -> Command {
    app.handle_key(KeyEvent::new(code, KeyModifiers::none()))
}

#[test]
fn rows_are_sorted_and_folded() {
    let mut app = app();
    assert_eq!(ids(&app), vec!["a", "b"]);
    app.toggle_expand();
    assert_eq!(ids(&app), vec!["a", "a.x", "a.y", "b"]);
    app.move_down();
    app.toggle_expand();
    assert_eq!(ids(&app), vec!["a", "a.x", "a.x.z", "a.y", "b"]);
    let rows = app.flat_rows();
    assert_eq!(rows[2].depth, 2);
    assert!(rows[0].has_children && rows[0].expanded);
    assert!(!rows[2].has_children);
    app.toggle_expand();
    assert_eq!(ids(&app), vec!["a", "a.x", "a.y", "b"]);
}

#[test]
fn sorting_keeps_every_goal() {
    let sorted = sort_goals(&tree());
    assert_eq!(sorted.len(), 5);
    assert!(sorted.windows(2).all(|w| w[0].sort_order <= w[1].sort_order));
    let below = goals_below(&tree(), Some("a"));
    assert_eq!(below.iter().map(|g| g.id.as_str()).collect::<Vec<_>>(), vec!["a.y", "a.x"]);
}

#[test]
fn a_sheet_shows_its_own_goals() {
    let mut goals = tree();
    goals[0].sheet_id = Some("s".to_string());
    let rows = rows_of(&goals, &Some("s".to_string()), &StrSet::new());
    assert_eq!(rows.len(), 1);
    assert_eq!(rows[0].goal.id, "b");
    assert_eq!(rows_of(&goals, &None, &StrSet::new()).len(), 2);
}

#[test]
fn descendants_are_all_below() {
    let d = descendant_ids(&tree(), "a");
    assert!(d.contains("a.x") && d.contains("a.y") && d.contains("a.x.z"));
    assert!(!d.contains("b"));
    assert!(ids_are_unique(&tree()));
    let mut twice = tree();
    twice.push(goal("a", None, 9));
    assert!(!ids_are_unique(&twice));
}

#[test]
fn a_finished_goal_with_unfinished_subgoals_is_partial() {
    let mut goals = tree();
    // Both `a` and `a.x` are done, `a.y` and `a.x.z` are not; `b` has no subgoals.
    goals[0].status = GoalStatus::Completed;
    goals[1].status = GoalStatus::Completed;
    goals[3].status = GoalStatus::Completed;
    let p = partial_ids(&goals);
    assert!(p.contains("a"));
    assert!(p.contains("a.x"));
    assert!(!p.contains("b"));
    assert!(!p.contains("a.y"));
    let app = App::new(goals, vec![], Theme::builtin_dark());
    assert!(app.partially_complete_ids().contains("a"));
}

#[test]
fn the_selection_stays_on_the_list() {
    let mut app = app();
    app.move_up();
    assert_eq!(app.selected_index(), 0);
    for _ in 0..9 {
        app.move_down();
    }
    assert!(app.is_dummy_selected());
    assert!(app.selected_row().is_none());
    assert_eq!(app.flat_len_with_dummy(), 3);
    app.select_first();
    app.select_last();
    assert_eq!(app.selected_index(), 2);
    app.select_first();
    assert_eq!(app.selected_row().unwrap().goal.id, "a");
}

#[test]
fn a_status_goes_around() {
    let mut g = goal("a", None, 0);
    let c = cycle_goal(&g, 0, "now");
    assert_eq!(c.update.status, Some(GoalStatus::InProgress));
    g.status = GoalStatus::InProgress;
    let c = cycle_goal(&g, 0, "now");
    assert_eq!(c.update.status, Some(GoalStatus::Completed));
    assert_eq!(c.update.completed_at, Some(Some("now".to_string())));
    g.status = GoalStatus::Completed;
    let c = cycle_goal(&g, 0, "now");
    assert_eq!(c.update.status, Some(GoalStatus::Pending));
    assert_eq!(c.update.completed_at, Some(None));
}

#[test]
fn a_repeating_goal_is_due_again() {
    let mut g = goal("a", None, 0);
    g.repeat_rule = Some("weekly".to_string());
    let c = toggle_goal(&g, 1_000_000, "now");
    assert_eq!(c.update.due_at, Some(Some("1970-01-19T13:46:40Z".to_string())));
    assert_eq!(next_due_at("daily", 0).as_deref(), Some("1970-01-02T00:00:00Z"));
    assert_eq!(next_due_at("monthly", 0).as_deref(), Some("1970-01-31T00:00:00Z"));
    assert_eq!(next_due_at("yearly", 0).as_deref(), Some("1971-01-01T00:00:00Z"));
    assert!(next_due_at("hourly", 0).is_none());
    // The last day that can be represented has no successor.
    assert!(next_due_at("daily", 8_210_266_876_799).is_none());
    assert!(next_due_at("daily", 8_210_266_876_799 - 86_400).is_some());
    assert!(next_due_at("daily", -8_334_601_228_800).is_some());
    assert!(next_due_for_repeat("daily").unwrap() > "2024".to_string());
    assert_eq!(days_of("weekly"), Some(7));
}

#[test]
fn repeat_rules_are_checked() {
    assert!(matches!(repeat_input(String::new()), RepeatInput::Clear));
    assert!(matches!(repeat_input("daily".to_string()), RepeatInput::Rule(r) if r == "daily"));
    assert!(matches!(repeat_input("often".to_string()), RepeatInput::Invalid));
    // What is typed is read without regard to case and surrounding space.
    let mut app = app();
    app.start_edit_repeat();
    app.input.set_text("  WEEKLY ".to_string());
    let c = app.commit_edit_repeat().unwrap();
    assert_eq!(c.update.repeat_rule, Some(Some("weekly".to_string())));
}

#[test]
fn a_goal_is_added_below_its_parent() {
    let mut app = app();
    app.start_add_goal(Some("a".to_string()));
    assert!(matches!(&app.mode, Mode::AddGoal { parent_id: Some(p) } if p == "a"));
    for c in "  new goal ".chars() {
        app.input.push_char(c);
    }
    let g = app.commit_add_goal().unwrap();
    assert_eq!(g.title, "new goal");
    assert_eq!(g.parent_id.as_deref(), Some("a"));
    let mut goals = tree();
    goals.push(goal("a.n", Some("a"), 2));
    app.goal_added(&g.parent_id, "a.n", goals);
    assert!(matches!(app.mode, Mode::Normal));
    assert_eq!(app.selected_row().unwrap().goal.id, "a.n");
}

#[test]
fn an_empty_title_adds_nothing() {
    let mut app = app();
    app.start_add_goal(None);
    app.input.push_char(' ');
    assert!(app.commit_add_goal().is_none());
}

#[test]
fn edits_write_one_field() {
    let mut app = app();
    app.start_edit_title();
    assert_eq!(app.input.text, "goal a");
    app.input.set_text("renamed".to_string());
    let c = app.commit_edit_title().unwrap();
    assert_eq!(c.goal_id, "a");
    assert_eq!(c.update.title.as_deref(), Some("renamed"));
    assert!(c.update.status.is_none());
    app.edited(tree(), &c.message);
    app.start_edit_description();
    app.input.set_text(String::new());
    let c = app.commit_edit_description().unwrap();
    assert_eq!(c.update.description, Some(None));
    app.cancel();
    app.start_edit_repeat();
    app.input.set_text("sometimes".to_string());
    assert!(app.commit_edit_repeat().is_none());
    assert!(app.message.is_some());
}

#[test]
fn a_goal_moves_anywhere_but_below_itself() {
    let mut app = app();
    app.open_move_picker("a".to_string());
    let targets: Vec<Option<String>> = app.move_choices.iter().map(|c| c.0.clone()).collect();
    assert!(targets.contains(&Some("b".to_string())));
    assert!(!targets.contains(&Some("a".to_string())));
    assert!(!targets.contains(&Some("a.x".to_string())));
    assert!(!targets.contains(&Some("a.x.z".to_string())));
    app.move_selected = targets.iter().position(|t| t.as_deref() == Some("b")).unwrap();
    let m = app.confirm_move().unwrap();
    assert_eq!(m.parent_id.as_deref(), Some("b"));
    let u = move_update(&m, 7);
    assert_eq!(u.parent_id, Some(Some("b".to_string())));
    assert_eq!(u.sort_order, Some(7));
}

#[test]
fn reordering_swaps_siblings() {
    let mut app = app();
    assert!(app.reorder_up().is_none());
    let s = app.reorder_down().unwrap();
    assert_eq!(s.first_id, "a");
    assert_eq!(s.second_id, "b");
    assert_eq!((s.first_order, s.second_order), (1, 0));
    assert_eq!(order_update(s.first_order).sort_order, Some(1));
    let mut goals = tree();
    goals[0].sort_order = 0;
    goals[1].sort_order = 1;
    app.reordered_down(goals);
    assert_eq!(ids(&app), vec!["b", "a"]);
    assert_eq!(app.selected_row().unwrap().goal.id, "a");
    let back = app.reorder_up().unwrap();
    assert_eq!((back.first_order, back.second_order), (0, 1));
}

#[test]
fn deleting_asks_first() {
    let mut app = app();
    assert!(app.confirm_delete().is_none());
    app.start_delete();
    assert!(matches!(press(&mut app, KeyCode::Char('y')), Command::ConfirmDelete));
    assert_eq!(app.confirm_delete().as_deref(), Some("a"));
    assert!(matches!(press(&mut app, KeyCode::Char('n')), Command::Nothing));
    assert!(matches!(app.mode, Mode::Normal));
}

#[test]
fn purging_asks_first() {
    let mut app = app();
    assert!(!app.confirm_purge());
    app.request_purge();
    assert!(matches!(press(&mut app, KeyCode::Char('Y')), Command::ConfirmPurge));
    assert!(app.confirm_purge());
    app.purged(vec![], Theme::builtin_dark(), Some(vec![]));
    assert_eq!(app.goals.len(), 0);
    assert!(matches!(app.mode, Mode::Normal));
}

#[test]
fn the_leader_arms_and_quits_everywhere() {
    let mut app = app();
    let leader = app.keybinds.leader;
    app.start_add_goal(None);
    app.handle_key(KeyEvent::new(leader.code, leader.modifiers));
    assert!(app.leader_pending);
    assert!(matches!(press(&mut app, KeyCode::Char('q')), Command::Quit));
    let mut app = crate::app();
    let ctrl_c = KeyEvent::new(KeyCode::Char('c'), KeyModifiers::control());
    assert!(matches!(app.handle_key(ctrl_c), Command::Quit));
}

#[test]
fn leader_commands_open_things() {
    let mut app = app();
    let leader = app.keybinds.leader;
    let help = app.keybinds.help;
    app.handle_key(KeyEvent::new(leader.code, leader.modifiers));
    let c = app.handle_key(KeyEvent::new(help.code, help.modifiers));
    assert!(matches!(c, Command::OpenHelp));
    assert!(!app.leader_pending);
    app.handle_key(KeyEvent::new(leader.code, leader.modifiers));
    press(&mut app, KeyCode::F(11));
    assert_eq!(app.message.as_deref(), Some("unknown leader command (f(11))"));
    app.after_key();
    assert!(app.message.is_none());
}

#[test]
fn bare_keys_move_and_change() {
    let mut app = app();
    press(&mut app, KeyCode::Char('j'));
    assert_eq!(app.selected_row().unwrap().goal.id, "b");
    press(&mut app, KeyCode::Up);
    assert_eq!(app.selected_row().unwrap().goal.id, "a");
    assert!(matches!(press(&mut app, KeyCode::Char(' ')), Command::ToggleComplete));
    let c = app.toggle_complete("now").unwrap();
    assert_eq!(c.update.status, Some(GoalStatus::Completed));
    press(&mut app, KeyCode::Char('@'));
    assert!(matches!(app.mode, Mode::AssignRange));
    press(&mut app, KeyCode::Esc);
    assert!(matches!(app.mode, Mode::Normal));
}

#[test]
fn a_buffer_gets_keys_first() {
    let mut app = app();
    let id = app.create_plugin_buffer("chat", "Chat".to_string());
    app.buffer_manager.select_buffer(Some(id.clone()));
    let key = KeyEvent::new(KeyCode::Char('j'), KeyModifiers::none());
    match app.handle_key(key) {
        Command::BufferKey { buffer, name } => {
            assert_eq!(buffer, id);
            assert_eq!(name, "j");
        }
        other => panic!("unexpected command {:?}", other),
    }
    // No goal is listed while a buffer is shown.
    assert_eq!(app.flat_rows().len(), 0);
    let at = KeyEvent::new(KeyCode::Char('@'), KeyModifiers::none());
    app.handle_buffer_key(at, "@", true);
    assert!(matches!(app.mode, Mode::Normal));
    app.handle_buffer_key(at, "@", false);
    assert!(matches!(app.mode, Mode::AssignRange));
    app.cancel();
    let q = KeyEvent::new(KeyCode::Char('q'), KeyModifiers::none());
    app.handle_buffer_key(q, "q", false);
    assert!(app.buffer_manager.current_buffer().is_none());
}

#[test]
fn sheets_are_picked_added_and_deleted() {
    let mut app = app();
    app.sheet_manager.attach_db();
    app.open_sheet_picker(vec![sheet("s"), sheet("t")]);
    assert_eq!(app.sheet_picker_selected, 0);
    press(&mut app, KeyCode::Down);
    app.select_sheet_at_picker(tree());
    assert_eq!(app.sheet_manager.current_sheet().as_deref(), Some("s"));
    app.open_sheet_picker(vec![sheet("s"), sheet("t")]);
    assert_eq!(app.sheet_picker_selected, 1);
    app.start_delete_sheet();
    assert_eq!(app.confirm_delete_sheet().as_deref(), Some("s"));
    app.sheet_deleted(vec![sheet("t")], tree());
    assert!(app.sheet_manager.current_sheet().is_none());
    app.start_add_sheet();
    for c in " work ".chars() {
        app.input.push_char(c);
    }
    assert_eq!(app.commit_add_sheet().as_deref(), Some("work"));
}

#[test]
fn a_sheet_manager_needs_a_database() {
    let mut m = SheetManager::new();
    assert!(m.create_sheet("s", "work", "now").is_err());
    assert!(m.delete_sheet("s", "now").is_err());
    m.attach_db();
    assert!(m.create_sheet("s", "work", "now").is_ok());
    assert!(m.select_sheet(Some("missing".to_string()), false).is_err());
    assert!(m.select_sheet(Some("s".to_string()), true).is_ok());
    m.sheet_deleted("s");
    assert!(m.current_sheet().is_none());
}

#[test]
fn buffers_have_ids_of_their_own() {
    let mut app = app();
    let one = app.create_plugin_buffer("chat", "One".to_string());
    app.set_plugin_buffer(&one, "Two".to_string());
    assert_eq!(app.buffer_manager.buffers.get(&one).unwrap(), "Two");
    assert!(app.buffer_manager.update_buffer("missing", "x".to_string()).is_err());
    assert_eq!(app.buffer_manager.list_buffers(), vec![one]);
}

#[test]
fn statuses_have_glyphs() {
    assert_ne!(status_glyph(GoalStatus::Pending), status_glyph(GoalStatus::Completed));
}
