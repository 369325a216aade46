//! The statements of the database layer and the rows that it reads.

use cordanui::collections::StrMap;
use cordanui::db::{
    add_plugin, clear_theme_selection, create, delete, escape_like, get, get_all, get_children,
    get_errors, get_plugin_settings, get_style_overrides, is_empty, log_error, merge_metadata,
    new_goal_id, next_sort_order, next_sort_order_in_sheet, orphan_goals, override_entries,
    plugin_setting_key, plugin_settings, purge_all, queue_for_agent, rename_sheet, set_active_theme,
    set_plugin_active, set_style_override, settings_to_config, setting_value, update, values_to_error,
    values_to_goal, values_to_plugin, values_to_sheet, DbValue, Statement, Subtree,
};
use cordanui::schema::{AgentStatus, CreateGoalInput, GoalStatus, UpdateGoalInput};

fn text(s: &str) -> DbValue {
    DbValue::Text(s.to_string())
}

fn params(s: &Statement) -> Vec<String> {
    s.params.iter().map(|p| format!("{:?}", p)).collect()
}

fn marks(s: &Statement) -> Vec<(&str, &str)> {
    s.marks.iter().map(|m| (m.0.as_str(), m.1.as_str())).collect()
}

fn goal_input(title: &str, parent: Option<&str>) -> CreateGoalInput {
    CreateGoalInput {
        title: title.to_string(),
        description: None,
        parent_id: parent.map(|p| p.to_string()),
        sheet_id: None,
        sort_order: Some(0),
        due_at: None,
        remind_at: None,
        repeat_rule: None,
    }
}

#[test]
fn hierarchical_ids() {
    let root = new_goal_id(&None, false, "0f2e").unwrap();
    // Root: plain uuid, no dots.
    assert!(!root.contains('.'), "root id should have no dots: {}", root);

    let child = new_goal_id(&Some(root.clone()), true, "9a31").unwrap();
    // Child: <root-id>.<uuid>
    assert!(
        child.starts_with(&format!("{}.", root)),
        "child id should extend root path: {}",
        child
    );
    let insert = create(&child, &goal_input("child", Some(&root)), "now");
    assert!(params(&insert).contains(&format!("Text({:?})", root)));

    let grandchild = new_goal_id(&Some(child.clone()), true, "77b0").unwrap();
    // Grandchild: <root-id>.<child-uuid>.<uuid>
    assert!(
        grandchild.starts_with(&format!("{}.", child)),
        "grandchild id should extend child path: {}",
        grandchild
    );
    assert_eq!(grandchild.matches('.').count(), 2);
}

#[test]
fn create_under_missing_parent_fails() {
    let result = new_goal_id(&Some("nonexistent".to_string()), false, "0f2e");
    assert!(result.is_err());
}

#[test]
fn reads_leave_deleted_rows_out() {
    for s in [get_all(), get("g"), get_children("g"), next_sort_order(None)] {
        assert!(s.sql.contains("deleted_at IS NULL"), "{}", s.sql);
    }
    assert_eq!(params(&get("g")), vec!["Text(\"g\")"]);
}

#[test]
fn an_update_names_what_it_sets() {
    let input = UpdateGoalInput {
        title: Some("t".to_string()),
        status: Some(GoalStatus::Completed),
        completed_at: Some(None),
        ..UpdateGoalInput::default()
    };
    let s = update("g1", &input, "now");
    assert_eq!(
        s.sql,
        "UPDATE goals SET title = ?, status = ?, completed_at = ?, updated_at = ? WHERE id = ?"
    );
    assert_eq!(
        params(&s),
        vec!["Text(\"t\")", "Status(Completed)", "Null", "Text(\"now\")", "Text(\"g1\")"]
    );
    assert_eq!(marks(&s), vec![("goals", "g1")]);
    assert!(is_empty(&UpdateGoalInput::default()));
    assert!(!is_empty(&input));
}

#[test]
fn a_delete_reaches_the_whole_subtree() {
    let mut tree = Subtree::new("a", true);
    while let Some(id) = tree.next() {
        let kids: Vec<String> = match id.as_str() {
            "a" => vec!["a.1".to_string(), "a.2".to_string()],
            "a.2" => vec!["a.2.x".to_string()],
            _ => vec![],
        };
        tree.found(&kids);
    }
    let mut found = tree.out.clone();
    found.sort();
    assert_eq!(found, vec!["a", "a.1", "a.2", "a.2.x"]);
    let s = delete(&tree.out, "now").unwrap();
    // Two times, and the ids.
    assert_eq!(s.params.len(), 6);
    assert_eq!(s.marks.len(), 4);
    assert!(delete(&vec![], "now").is_none());
}

#[test]
fn sheet_positions_depend_on_parent_and_sheet() {
    assert_eq!(params(&next_sort_order_in_sheet(Some("p"), Some("s"))).len(), 2);
    assert!(next_sort_order_in_sheet(None, None).sql.contains("sheet_id IS NULL"));
    assert!(next_sort_order_in_sheet(Some("p"), None).sql.contains("parent_id = ?"));
}

#[test]
fn sheets_are_marked_when_renamed() {
    let s = rename_sheet("s1", "work");
    assert_eq!(params(&s), vec!["Text(\"work\")", "Text(\"s1\")"]);
    assert_eq!(marks(&s), vec![("goal_sheets", "s1")]);
    let s = orphan_goals("s1", "now");
    assert!(s.sql.contains("sheet_id = NULL") || s.sql.contains("sheet_id=NULL"), "{}", s.sql);
}

#[test]
fn plugins_are_active_when_added() {
    let s = add_plugin("p", "o/p", "/d", "now");
    assert!(s.sql.contains("VALUES (?, ?, ?, 1, ?)"));
    assert_eq!(params(&set_plugin_active("p", true)), vec!["Integer(1)", "Text(\"p\")"]);
    assert_eq!(params(&set_plugin_active("p", false)), vec!["Integer(0)", "Text(\"p\")"]);
}

#[test]
fn choosing_a_theme_is_explicit() {
    let (mode, selected) = set_active_theme("moon");
    assert!(mode.sql.contains("'explicit'"));
    assert_eq!(params(&selected), vec!["Text(\"moon\")"]);
    assert!(clear_theme_selection().sql.contains("'system'"));
}

#[test]
fn a_second_delete_writes_nothing() {
    let tree = Subtree::new("a", false);
    assert!(tree.next().is_none());
    assert!(tree.out.is_empty());
    assert!(delete(&tree.out, "now").is_none());
}

#[test]
fn settings_stay_in_their_namespace() {
    assert_eq!(plugin_setting_key("p", "k"), "p.k");
    assert_eq!(escape_like("a_b%'c"), "a\\_b\\%''c");
    assert_eq!(escape_like("a\\b"), "a\\\\b");
    assert!(plugin_settings("a_b").sql.contains("'a\\_b.%'"));
    let mut local = StrMap::new();
    local.insert("k".to_string(), "local".to_string());
    local.insert("only".to_string(), "here".to_string());
    let rows = vec![
        vec![text("p.k"), text("stored")],
        vec![text("px.k"), text("another plugin")],
        vec![text("p.n"), DbValue::Null],
    ];
    let m = get_plugin_settings(local, &rows, "p");
    assert_eq!(m.get("k").unwrap(), "stored");
    assert_eq!(m.get("only").unwrap(), "here");
    assert!(m.get("n").is_none());
    assert_eq!(m.entries().len(), 2);
}

#[test]
fn style_overrides_lose_their_prefix() {
    let s = set_style_override("primary", "#111111");
    assert_eq!(params(&s), vec!["Text(\"style.primary\")", "Text(\"#111111\")"]);
    let rows = vec![vec![text("style.primary"), text("#111111")]];
    assert_eq!(get_style_overrides(&rows).get("primary").unwrap(), "#111111");
    assert_eq!(override_entries(&rows), vec![("primary".to_string(), "#111111".to_string())]);
}

#[test]
fn metadata_patches_are_merged() {
    let meta = Some("{\"a\":1,\"b\":{\"c\":2}}".to_string());
    let r = merge_metadata(&meta, "{\"a\":null,\"d\":\"x\"}");
    assert_eq!(r, "{\"b\":{\"c\":2},\"d\":\"x\"}");
    // What is no object counts as empty, and a patch that is none changes nothing.
    assert_eq!(merge_metadata(&Some("[1]".to_string()), "{\"a\":1}"), "{\"a\":1}");
    assert_eq!(merge_metadata(&None, "7"), "{}");
}

#[test]
fn settings_become_a_json_object() {
    let mut m = StrMap::new();
    assert!(settings_to_config(&m).is_none());
    m.insert("k".to_string(), "a\"b".to_string());
    assert_eq!(settings_to_config(&m).unwrap(), "{\"k\":\"a\\\"b\"}");
}

#[test]
fn rows_become_goals() {
    let mut row: Vec<DbValue> = Vec::new();
    for s in ["g1", "title", "desc", "agent_mode", "p", "s"] {
        row.push(text(s));
    }
    row.push(DbValue::Integer(4));
    for s in ["c", "u"] {
        row.push(text(s));
    }
    row.push(DbValue::Null);
    row.push(text("queued"));
    let g = values_to_goal(&row, GoalStatus::AgentMode, Some(AgentStatus::Queued));
    assert_eq!(g.id, "g1");
    assert_eq!(g.description.as_deref(), Some("desc"));
    assert_eq!(g.sheet_id.as_deref(), Some("s"));
    assert_eq!(g.sort_order, 4);
    assert!(g.completed_at.is_none());
    // Missing columns are empty.
    assert!(g.metadata.is_none());
    assert_eq!(g.agent_status, Some(AgentStatus::Queued));
}

#[test]
fn rows_become_plugins_sheets_and_errors() {
    let row = vec![text("p"), text("o/p"), text("/d"), DbValue::Integer(2), text("t")];
    let p = values_to_plugin(&row);
    assert!(p.active);
    assert_eq!(p.dir, "/d");
    let p = values_to_plugin(&vec![text("p"), text("o/p"), text("/d"), text("1")]);
    assert!(!p.active);
    let s = values_to_sheet(&vec![text("s"), text("work"), text("t"), DbValue::Null]);
    assert_eq!(s.name, "work");
    assert!(s.deleted_at.is_none());
    let e = values_to_error(&vec![text("sync"), text("m"), DbValue::Null]);
    assert_eq!(e.detail.as_deref(), Some(""));
    assert_eq!(e.created_at, "");
    assert_eq!(setting_value(&vec![text("v")]).as_deref(), Some("v"));
    assert!(setting_value(&vec![DbValue::Integer(1)]).is_none());
}

#[test]
fn errors_are_logged_with_their_detail() {
    let s = log_error("e1", "sync", "failed", None, "now");
    assert_eq!(
        params(&s),
        vec!["Text(\"e1\")", "Text(\"sync\")", "Text(\"failed\")", "Null", "Text(\"now\")"]
    );
    assert_eq!(params(&get_errors(5)), vec!["Integer(5)"]);
}

#[test]
fn a_purge_keeps_the_bookkeeping_of_migrations() {
    let all = purge_all();
    assert_eq!(all.len(), 8);
    assert!(all.iter().all(|s| !s.contains("_migrations")));
    assert!(all.contains(&"DELETE FROM _outbox".to_string()));
}

#[test]
fn a_queued_goal_is_in_agent_mode() {
    let s = queue_for_agent("g", "now");
    assert!(s.sql.contains("status='agent_mode', agent_status='queued'"));
    assert_eq!(params(&s), vec!["Text(\"now\")", "Text(\"g\")"]);
}
