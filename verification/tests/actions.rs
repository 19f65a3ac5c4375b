use rusqlite::Connection;
use uhatt::db::actions::{
    capture_and_log_delete, capture_project_ids, list_actions, log_create_task, log_rename_task,
    log_reparent, log_set_deadline, log_set_notes, log_set_project, log_set_status,
    revert_action, revert_from, NO_PROJECT_LABEL,
};
use uhatt::db::{
    add_manual_entry, create_project, create_task, delete_task, get_task, list_entries_for_task,
    open_in_memory, rename_task, reparent_task, set_task_deadline, set_task_notes,
    set_task_project, set_task_status,
};
use uhatt::domain::{Task, TaskStatus};

fn root(conn: &Connection, title: &str) -> Task {
    create_task(conn, title, None, None).unwrap()
}

fn child(conn: &Connection, title: &str, parent: &str) -> Task {
    create_task(conn, title, Some(parent), None).unwrap()
}

fn only_action_id(conn: &Connection) -> i64 {
    let ids = list_actions(conn).unwrap();
    assert_eq!(ids.len(), 1, "expected exactly one logged action");
    ids[0].id
}

#[test]
fn project_label_reflects_current_project_or_unfiled() {
    let conn = open_in_memory().unwrap();
    let p = create_project(&conn, "Work").unwrap();

    let in_project = create_task(&conn, "quarterly report", None, Some(&p.id)).unwrap();
    log_create_task(&conn, &in_project).unwrap();

    let no_project = root(&conn, "buy groceries");
    log_create_task(&conn, &no_project).unwrap();

    let rows = list_actions(&conn).unwrap();
    let in_project_row = rows.iter().find(|r| r.summary.contains("quarterly")).unwrap();
    let no_project_row = rows.iter().find(|r| r.summary.contains("groceries")).unwrap();
    assert_eq!(in_project_row.project_label, "Work");
    assert_eq!(no_project_row.project_label, NO_PROJECT_LABEL);
}

#[test]
fn project_label_falls_back_to_snapshot_for_a_deleted_task() {
    let conn = open_in_memory().unwrap();
    let p = create_project(&conn, "Work").unwrap();
    let t = create_task(&conn, "gone", None, Some(&p.id)).unwrap();

    capture_and_log_delete(&conn, &t.id).unwrap();
    delete_task(&conn, &t.id).unwrap();

    let rows = list_actions(&conn).unwrap();
    assert_eq!(rows[0].project_label, "Work");
}

#[test]
fn create_task_reverts_to_no_task() {
    let conn = open_in_memory().unwrap();
    let t = root(&conn, "write plan");
    log_create_task(&conn, &t).unwrap();

    let id = only_action_id(&conn);
    revert_action(&conn, id).unwrap();

    assert!(get_task(&conn, &t.id).unwrap().is_none());
    assert!(list_actions(&conn).unwrap().is_empty());
}

#[test]
fn rename_reverts_title() {
    let conn = open_in_memory().unwrap();
    let t = root(&conn, "old title");
    rename_task(&conn, &t.id, "new title").unwrap();
    log_rename_task(&conn, &t.id, "old title", "new title").unwrap();

    let id = only_action_id(&conn);
    revert_action(&conn, id).unwrap();

    assert_eq!(get_task(&conn, &t.id).unwrap().unwrap().title, "old title");
}

#[test]
fn set_notes_reverts_notes() {
    let conn = open_in_memory().unwrap();
    let t = root(&conn, "task");
    set_task_notes(&conn, &t.id, "new notes").unwrap();
    log_set_notes(&conn, &t.id, &t.title, "").unwrap();

    let id = only_action_id(&conn);
    revert_action(&conn, id).unwrap();

    assert_eq!(get_task(&conn, &t.id).unwrap().unwrap().notes, "");
}

#[test]
fn set_deadline_reverts_to_previous_deadline() {
    let conn = open_in_memory().unwrap();
    let t = root(&conn, "task");
    set_task_deadline(&conn, &t.id, Some("2026-01-01")).unwrap();
    log_set_deadline(&conn, &t.id, &t.title, None, Some("2026-01-01")).unwrap();

    let id = only_action_id(&conn);
    revert_action(&conn, id).unwrap();

    assert_eq!(get_task(&conn, &t.id).unwrap().unwrap().deadline, None);
}

#[test]
fn set_status_revert_clears_completed_at() {
    let conn = open_in_memory().unwrap();
    let t = root(&conn, "task");
    set_task_status(&conn, &t.id, TaskStatus::Done).unwrap();
    log_set_status(&conn, &t.id, &t.title, TaskStatus::Todo, true).unwrap();

    let id = only_action_id(&conn);
    revert_action(&conn, id).unwrap();

    let after = get_task(&conn, &t.id).unwrap().unwrap();
    assert_eq!(after.status, TaskStatus::Todo);
}

#[test]
fn set_project_reverts_whole_subtree() {
    let conn = open_in_memory().unwrap();
    let p = create_project(&conn, "Work").unwrap();
    let parent = root(&conn, "parent");
    let kid = child(&conn, "kid", &parent.id);

    let old_map = capture_project_ids(&conn, &parent.id).unwrap();
    set_task_project(&conn, &parent.id, Some(&p.id)).unwrap();
    log_set_project(&conn, &parent.id, &parent.title, &old_map, "Work").unwrap();

    let id = only_action_id(&conn);
    revert_action(&conn, id).unwrap();

    assert_eq!(get_task(&conn, &parent.id).unwrap().unwrap().project_id, None);
    assert_eq!(get_task(&conn, &kid.id).unwrap().unwrap().project_id, None);
}

#[test]
fn reparent_revert_restores_parent_and_project() {
    let conn = open_in_memory().unwrap();
    let a = root(&conn, "a");
    let b = root(&conn, "b");
    let c = child(&conn, "c", &a.id);

    let before = get_task(&conn, &c.id).unwrap().unwrap();
    let old_map = capture_project_ids(&conn, &c.id).unwrap();
    reparent_task(&conn, &c.id, &b.id).unwrap();
    log_reparent(
        &conn,
        &c.id,
        &before.title,
        before.parent_id.as_deref(),
        before.sort_order,
        &old_map,
        "b",
    )
    .unwrap();

    assert_eq!(get_task(&conn, &c.id).unwrap().unwrap().parent_id, Some(b.id.clone()));

    let id = only_action_id(&conn);
    revert_action(&conn, id).unwrap();

    let after = get_task(&conn, &c.id).unwrap().unwrap();
    assert_eq!(after.parent_id, Some(a.id.clone()));
}

#[test]
fn reparent_revert_falls_back_to_root_when_old_parent_gone() {
    let conn = open_in_memory().unwrap();
    let r1 = root(&conn, "r1");
    let r2 = root(&conn, "r2");
    let c = child(&conn, "c", &r1.id);

    let before = get_task(&conn, &c.id).unwrap().unwrap();
    let old_map = capture_project_ids(&conn, &c.id).unwrap();
    reparent_task(&conn, &c.id, &r2.id).unwrap();
    log_reparent(
        &conn,
        &c.id,
        &before.title,
        before.parent_id.as_deref(),
        before.sort_order,
        &old_map,
        "r2",
    )
    .unwrap();

    // r1 (c's original parent) is gone by the time we revert.
    delete_task(&conn, &r1.id).unwrap();

    let id = only_action_id(&conn);
    revert_action(&conn, id).unwrap();

    let after = get_task(&conn, &c.id).unwrap().unwrap();
    assert_eq!(after.parent_id, None, "should fall back to root, not error");
}

#[test]
fn delete_revert_restores_subtree_and_time_entries() {
    let conn = open_in_memory().unwrap();
    let parent = root(&conn, "parent");
    let kid = child(&conn, "kid", &parent.id);
    add_manual_entry(&conn, &kid.id, "2026-01-01T09:00", "2026-01-01T10:00", "worked").unwrap();

    capture_and_log_delete(&conn, &parent.id).unwrap();
    delete_task(&conn, &parent.id).unwrap();

    assert!(get_task(&conn, &parent.id).unwrap().is_none());
    assert!(get_task(&conn, &kid.id).unwrap().is_none());

    let id = only_action_id(&conn);
    revert_action(&conn, id).unwrap();

    let restored_parent = get_task(&conn, &parent.id).unwrap().unwrap();
    assert_eq!(restored_parent.title, "parent");
    let restored_kid = get_task(&conn, &kid.id).unwrap().unwrap();
    assert_eq!(restored_kid.parent_id, Some(parent.id.clone()));
    let entries = list_entries_for_task(&conn, &kid.id).unwrap();
    assert_eq!(entries.len(), 1);
    assert_eq!(entries[0].seconds, 3600);
}

#[test]
fn delete_revert_falls_back_to_root_when_original_parent_gone() {
    let conn = open_in_memory().unwrap();
    let parent = root(&conn, "parent");
    let kid = child(&conn, "kid", &parent.id);

    capture_and_log_delete(&conn, &kid.id).unwrap();
    delete_task(&conn, &kid.id).unwrap();
    // Now the parent is gone too, before the kid's delete is reverted.
    delete_task(&conn, &parent.id).unwrap();

    let id = only_action_id(&conn);
    revert_action(&conn, id).unwrap();

    let restored_kid = get_task(&conn, &kid.id).unwrap().unwrap();
    assert_eq!(restored_kid.parent_id, None, "should fall back to root, not error");
}

#[test]
fn reset_from_here_undoes_a_whole_range_newest_first() {
    let conn = open_in_memory().unwrap();
    let t = root(&conn, "v1");

    rename_task(&conn, &t.id, "v2").unwrap();
    log_rename_task(&conn, &t.id, "v1", "v2").unwrap();
    let first_id = list_actions(&conn).unwrap()[0].id;

    rename_task(&conn, &t.id, "v3").unwrap();
    log_rename_task(&conn, &t.id, "v2", "v3").unwrap();

    set_task_status(&conn, &t.id, TaskStatus::Done).unwrap();
    log_set_status(&conn, &t.id, "v3", TaskStatus::Todo, true).unwrap();

    assert_eq!(list_actions(&conn).unwrap().len(), 3);

    revert_from(&conn, first_id).unwrap();

    let after = get_task(&conn, &t.id).unwrap().unwrap();
    assert_eq!(after.title, "v1");
    assert_eq!(after.status, TaskStatus::Todo);
    assert!(list_actions(&conn).unwrap().is_empty());
}

#[test]
fn reset_single_action_leaves_newer_ones_in_place() {
    let conn = open_in_memory().unwrap();
    let t = root(&conn, "v1");

    rename_task(&conn, &t.id, "v2").unwrap();
    log_rename_task(&conn, &t.id, "v1", "v2").unwrap();
    let first_id = list_actions(&conn).unwrap()[0].id;

    rename_task(&conn, &t.id, "v3").unwrap();
    log_rename_task(&conn, &t.id, "v2", "v3").unwrap();

    // "Reset" only undoes the one action picked - it restores exactly what
    // that action's own before-state was ("v1"), independent of the
    // still-standing newer rename's log entry.
    revert_action(&conn, first_id).unwrap();

    let after = get_task(&conn, &t.id).unwrap().unwrap();
    assert_eq!(after.title, "v1");
    assert_eq!(list_actions(&conn).unwrap().len(), 1);
}
