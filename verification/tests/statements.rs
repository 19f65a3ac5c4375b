use rusqlite::Connection;
use uhatt::db::actions::{
    import_quick_creation, log_rename_task, log_set_status, revert_action, revert_from,
    ACTIONS_FROM_SQL, DELETE_ACTIONS_FROM_SQL, DELETE_ACTION_SQL, INSERT_ACTION_SQL,
};
use uhatt::db::countdown::{countdown_read, DAYS_SQL};
use uhatt::db::entries::{
    recover_orphan_timer_sent, set_meta, start_timer_sent, CLOSE_ORPHAN_SQL, HEARTBEAT_KEY, START_TIMER_SQL,
    STOP_TIMER_SQL,
};
use uhatt::db::heat::{heatmap_read, HeatRange, SeriesTarget};
use uhatt::db::migrations;
use uhatt::db::{
    create_task, open_in_memory, rename_task, set_task_deadline, set_task_status, tree_stmt,
    CountdownMode, INSERT_TASK_SQL, RENAME_TASK_SQL, SET_DEADLINE_SQL, SET_STATUS_SQL,
};
use uhatt::domain::{parse_quick_creation, ProjectFilter, TaskStatus};
use uhatt::sql::{SqlArg, Stmt};

fn text(s: &str) -> SqlArg {
    SqlArg::Text(s.to_owned())
}

#[test]
fn writes_hand_back_the_statement_they_ran() {
    let conn = open_in_memory().unwrap();
    let t = create_task(&conn, "a", None, None).unwrap();
    let sent = set_task_status(&conn, &t.id, TaskStatus::Done).unwrap();
    assert_eq!(
        sent,
        vec![Stmt { sql: SET_STATUS_SQL.to_owned(), args: vec![text(&t.id), text("done"), SqlArg::Int(1)] }]
    );
    let sent = rename_task(&conn, &t.id, "  b ").unwrap();
    assert_eq!(sent, vec![Stmt { sql: RENAME_TASK_SQL.to_owned(), args: vec![text(&t.id), text("b")] }]);
    assert!(set_task_deadline(&conn, &t.id, Some("soon")).unwrap().is_empty());
    let sent = set_task_deadline(&conn, &t.id, Some(" 2026-05-01 ")).unwrap();
    assert_eq!(
        sent,
        vec![Stmt { sql: SET_DEADLINE_SQL.to_owned(), args: vec![text(&t.id), text("2026-05-01")] }]
    );
}

#[test]
fn a_revert_reports_the_undo_and_the_removal_from_the_log() {
    let conn = open_in_memory().unwrap();
    let t = create_task(&conn, "v1", None, None).unwrap();
    rename_task(&conn, &t.id, "v2").unwrap();
    log_rename_task(&conn, &t.id, "v1", "v2").unwrap();
    let id = uhatt::db::actions::list_actions(&conn).unwrap()[0].id;
    let rv = revert_action(&conn, id).unwrap();
    assert!(rv.lead.is_empty());
    assert_eq!(rv.undone.len(), 1);
    assert_eq!(rv.undone[0].action_id, id);
    assert_eq!(rv.undone[0].kind, "rename_task");
    assert_eq!(
        rv.undone[0].undo.sent,
        vec![Stmt { sql: RENAME_TASK_SQL.to_owned(), args: vec![text(&t.id), text("v1")] }]
    );
    assert_eq!(rv.trail, vec![Stmt { sql: DELETE_ACTION_SQL.to_owned(), args: vec![SqlArg::Int(id)] }]);
    // An id that is not in the log undoes nothing and still removes nothing else.
    let rv = revert_action(&conn, 999).unwrap();
    assert!(rv.undone.is_empty());
}

#[test]
fn reset_reports_newest_first() {
    let conn = open_in_memory().unwrap();
    let t = create_task(&conn, "v1", None, None).unwrap();
    rename_task(&conn, &t.id, "v2").unwrap();
    log_rename_task(&conn, &t.id, "v1", "v2").unwrap();
    let first = uhatt::db::actions::list_actions(&conn).unwrap()[0].id;
    set_task_status(&conn, &t.id, TaskStatus::Done).unwrap();
    log_set_status(&conn, &t.id, "v2", TaskStatus::Todo, true).unwrap();
    let rv = revert_from(&conn, first).unwrap();
    assert_eq!(rv.lead, vec![Stmt { sql: ACTIONS_FROM_SQL.to_owned(), args: vec![SqlArg::Int(first)] }]);
    let ids: Vec<i64> = rv.undone.iter().map(|u| u.action_id).collect();
    assert_eq!(ids, [first + 1, first]);
    assert_eq!(rv.undone[0].kind, "set_status");
    assert_eq!(
        rv.trail,
        vec![Stmt { sql: DELETE_ACTIONS_FROM_SQL.to_owned(), args: vec![SqlArg::Int(first)] }]
    );
    let back = uhatt::db::get_task(&conn, &t.id).unwrap().unwrap();
    assert_eq!(back.title, "v1");
    assert_eq!(back.status, TaskStatus::Todo);
}

#[test]
fn an_import_reports_each_insert_under_its_parent() {
    let conn = open_in_memory().unwrap();
    let tasks = parse_quick_creation("a|1h|2026-01-02|notes\n\tb|||\nc|||", '\t', 0)
        .into_iter()
        .map(|l| l.result.unwrap())
        .collect::<Vec<_>>();
    let o = import_quick_creation(&conn, " P ", &tasks).unwrap();
    assert_eq!(o.created[0].args, vec![text(&o.project_id), text("P")]);
    let a = &o.tasks[0];
    assert_eq!(a.sent[0].sql, INSERT_TASK_SQL);
    assert_eq!(a.sent[0].args, vec![text(&a.id), SqlArg::Null, text(&o.project_id), text("a")]);
    assert_eq!(a.sent.len(), 4);
    assert_eq!(a.sent[1].sql, SET_DEADLINE_SQL);
    let b = &o.tasks[1];
    assert_eq!(b.sent[0].args[1], text(&a.id));
    assert_eq!(b.sent.len(), 1);
    assert_eq!(o.tasks[2].sent[0].args[1], SqlArg::Null);
    assert_eq!(o.logged[0].sql, INSERT_ACTION_SQL);
    assert_eq!(o.logged[0].args[0], text("import_project"));
}

#[test]
fn a_countdown_asks_about_the_trimmed_date_only_when_it_exists() {
    let conn = open_in_memory().unwrap();
    let (r, qs) = countdown_read(&conn, "2026-13-01", CountdownMode::Days);
    assert_eq!(r.unwrap(), "");
    assert!(qs.is_empty());
    let (r, qs) = countdown_read(&conn, " 2030-01-01 ", CountdownMode::Days);
    assert!(r.is_ok());
    assert_eq!(qs, vec![Stmt { sql: DAYS_SQL.to_owned(), args: vec![text("2030-01-01")] }]);
}

#[test]
fn the_tree_query_names_the_scope() {
    assert_eq!(tree_stmt(&ProjectFilter::Only("p".to_owned()), false).args, vec![text("p")]);
    assert!(tree_stmt(&ProjectFilter::All, true).args.is_empty());
}

#[test]
fn starting_the_timer_closes_the_running_entry_first() {
    let conn = open_in_memory().unwrap();
    let t = create_task(&conn, "w", None, None).unwrap();
    let (_e1, id1, sent1) = start_timer_sent(&conn, &t.id).unwrap();
    assert_eq!(sent1, vec![Stmt { sql: START_TIMER_SQL.to_owned(), args: vec![text(&id1), text(&t.id)] }]);
    let (_e2, id2, sent2) = start_timer_sent(&conn, &t.id).unwrap();
    assert_eq!(
        sent2,
        vec![
            Stmt { sql: STOP_TIMER_SQL.to_owned(), args: vec![text(&id1)] },
            Stmt { sql: START_TIMER_SQL.to_owned(), args: vec![text(&id2), text(&t.id)] },
        ]
    );
}

#[test]
fn migrating_a_fresh_database_runs_every_step_then_nothing() {
    let conn = Connection::open_in_memory().unwrap();
    let batches = migrations::run(&conn).unwrap();
    assert_eq!(batches.len(), 2 * migrations::COUNT);
    assert_eq!(batches[0], migrations::V1);
    assert_eq!(batches[1], "PRAGMA user_version = 1");
    assert_eq!(batches[7], "PRAGMA user_version = 4");
    assert!(migrations::run(&conn).unwrap().is_empty());
}

#[test]
fn recovery_closes_the_open_entry_at_the_heartbeat() {
    let conn = open_in_memory().unwrap();
    let (none, sent) = recover_orphan_timer_sent(&conn).unwrap();
    assert!(none.is_none() && sent.is_empty());
    let t = create_task(&conn, "w", None, None).unwrap();
    let (_e, id, _s) = start_timer_sent(&conn, &t.id).unwrap();
    set_meta(&conn, HEARTBEAT_KEY, "2000-01-01T00:00:00").unwrap();
    let (rec, sent) = recover_orphan_timer_sent(&conn).unwrap();
    assert_eq!(rec.unwrap().task_id, t.id);
    assert_eq!(
        sent,
        vec![Stmt { sql: CLOSE_ORPHAN_SQL.to_owned(), args: vec![text(&id), text("2000-01-01T00:00:00")] }]
    );
}

#[test]
fn the_heatmap_query_carries_the_anchor_and_the_target() {
    let conn = open_in_memory().unwrap();
    let (cells, q) = heatmap_read(&conn, &SeriesTarget::Project("p".to_owned()), HeatRange::Week, "2026-09-10");
    assert_eq!(cells.unwrap().len(), 7);
    assert_eq!(q.args, vec![text("2026-09-10"), text("p")]);
}

#[test]
fn quick_create_hands_the_parsed_tasks_to_the_import() {
    let q = uhatt::views::quick_create::QuickCreate::new(open_in_memory().unwrap());
    let (reply, handed) = q.create_handing("Plan", "root|||\n\tkid|||\n\t\tgrandkid|||", true, 0);
    assert!(reply.starts_with("{\"ok\":true"), "got {reply}");
    let depths: Vec<usize> = handed.unwrap().iter().map(|t| t.depth).collect();
    assert_eq!(depths, [0, 1, 2]);
    let (_reply, refused) = q.create_handing("  ", "a|||", true, 0);
    assert!(refused.is_none());
}
