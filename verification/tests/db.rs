use uhatt::db::entries::row_to_running_timer;
use uhatt::db::heat::row_to_heat_cell;
use uhatt::db::row_to_deadline_item;
use uhatt::sql::SqlValue;
use rusqlite::Connection;
use uhatt::db::migrations;
use uhatt::db::{
    add_manual_entry, can_reparent, create_project, create_task, deadline_countdown,
    deadline_items, delete_entry, delete_project, delete_task, entry_duration_seconds, get_entry,
    get_meta, get_task, has_subtasks, heat_at_latest, heatmap, list_deadlined_tree,
    list_entries_for_task, list_finished_tasks, list_projects, list_task_tree, open_in_memory,
    recover_orphan_timer, rename_task, reparent_task, running_entry, running_timer, scope_seconds,
    set_meta, set_task_deadline, set_task_project, set_task_status, snap_anchor, start_timer,
    step_anchor, stop_timer, task_seconds, update_entry, CountdownMode, HeatCell, HeatRange,
    SeriesTarget, TaskNode,
};
use uhatt::domain::{new_id, ProjectFilter, Task, TaskStatus};

fn root(conn: &Connection, title: &str) -> Task {
    create_task(conn, title, None, None).unwrap()
}

fn child(conn: &Connection, title: &str, parent: &str) -> Task {
    create_task(conn, title, Some(parent), None).unwrap()
}

/// An ISO date `mods` (SQLite date modifiers) away from local today.
fn date_at(conn: &Connection, mods: &str) -> String {
    conn.query_row(&format!("SELECT date('now','localtime',{mods})"), [], |r| r.get(0))
        .unwrap()
}

fn completed_at(conn: &Connection, id: &str) -> Option<String> {
    conn.query_row("SELECT completed_at FROM tasks WHERE id = ?1", [id], |r| r.get(0))
        .unwrap()
}

/// Task titles in tree display order.
fn titles(conn: &Connection) -> Vec<String> {
    list_task_tree(conn, &ProjectFilter::All, true)
        .unwrap()
        .into_iter()
        .map(|n| n.task.title)
        .collect()
}

fn node(conn: &Connection, id: &str) -> TaskNode {
    list_task_tree(conn, &ProjectFilter::All, true)
        .unwrap()
        .into_iter()
        .find(|n| n.task.id == id)
        .unwrap()
}

fn day_secs(cells: &[HeatCell], date: &str) -> i64 {
    cells.iter().find(|c| c.date == date).map(|c| c.seconds).unwrap_or(-1)
}

fn closed_entry(conn: &Connection, task: &str, start: &str, end: &str) {
    let id = new_id();
    conn.execute(
        "INSERT INTO time_entries (id, task_id, start_ts, end_ts, created_at)
         VALUES (?1, ?2, ?3, ?4, ?3)",
        [id.as_str(), task, start, end],
    )
    .unwrap();
}

#[test]
fn migrations_reach_head_and_are_idempotent() {
    let conn = open_in_memory().unwrap();
    let v: i64 = conn.query_row("PRAGMA user_version", [], |r| r.get(0)).unwrap();
    assert_eq!(v as usize, migrations::COUNT);

    // Running again must not error or change the version.
    let mut conn = conn;
    migrations::run(&mut conn).unwrap();
    let v2: i64 = conn.query_row("PRAGMA user_version", [], |r| r.get(0)).unwrap();
    assert_eq!(v, v2);
}

#[test]
fn create_trims_and_orders_by_insertion() {
    let conn = open_in_memory().unwrap();
    let a = root(&conn, "  write plan  ");
    let b = root(&conn, "ship it");

    assert_eq!(a.title, "write plan");
    assert!(a.sort_order < b.sort_order);

    assert_eq!(titles(&conn), ["write plan", "ship it"]);
}

#[test]
fn toggle_status_stamps_and_clears_completed_at() {
    let conn = open_in_memory().unwrap();
    let t = root(&conn, "task");
    assert!(completed_at(&conn, &t.id).is_none());

    set_task_status(&conn, &t.id, TaskStatus::Done).unwrap();
    assert_eq!(get_task(&conn, &t.id).unwrap().unwrap().status, TaskStatus::Done);
    assert!(completed_at(&conn, &t.id).is_some());

    set_task_status(&conn, &t.id, TaskStatus::Todo).unwrap();
    assert!(completed_at(&conn, &t.id).is_none());
}

#[test]
fn delete_cascades_to_subtasks() {
    let conn = open_in_memory().unwrap();
    let parent = root(&conn, "parent");
    child(&conn, "child", &parent.id);
    assert_eq!(titles(&conn).len(), 2);

    delete_task(&conn, &parent.id).unwrap();
    assert!(titles(&conn).is_empty());
}

#[test]
fn reparent_moves_subtree_and_carries_project() {
    let conn = open_in_memory().unwrap();
    let proj = create_project(&conn, "P").unwrap();
    let a = create_task(&conn, "A", None, Some(&proj.id)).unwrap();
    let b = root(&conn, "B"); // no project
    let b1 = child(&conn, "B1", &b.id);

    // Cycle / self guards.
    assert!(!can_reparent(&conn, &b.id, &b.id).unwrap());
    assert!(!can_reparent(&conn, &b.id, &b1.id).unwrap()); // onto own child
    assert!(!can_reparent(&conn, &b.id, "ghost").unwrap());
    assert!(can_reparent(&conn, &b.id, &a.id).unwrap());

    // Move B (and B1) under A: B becomes A's child, both gain A's project.
    reparent_task(&conn, &b.id, &a.id).unwrap();
    let tree = list_task_tree(&conn, &ProjectFilter::All, true).unwrap();
    let by = |id: &str| tree.iter().find(|n| n.task.id == id).unwrap();
    assert_eq!(by(&b.id).task.parent_id.as_deref(), Some(a.id.as_str()));
    assert_eq!(by(&b.id).task.project_id.as_deref(), Some(proj.id.as_str()));
    assert_eq!(by(&b1.id).task.project_id.as_deref(), Some(proj.id.as_str()));
    assert_eq!(by(&b.id).depth, 1);
    assert_eq!(by(&b1.id).depth, 2);

    // A rejected move leaves everything as it was.
    reparent_task(&conn, &a.id, &b1.id).unwrap(); // would be a cycle
    assert_eq!(list_task_tree(&conn, &ProjectFilter::All, true).unwrap()[0].task.id, a.id);
}

#[test]
fn deadline_countdown_words_and_modes() {
    let conn = open_in_memory().unwrap();
    let at = |mods: &str| -> String { date_at(&conn, mods) };
    let cd = |date: &str, m| deadline_countdown(&conn, date, m).unwrap();

    assert_eq!(cd(&at("'+3 days'"), CountdownMode::Off), "");
    assert_eq!(cd("not-a-date", CountdownMode::Optimal), "");

    assert_eq!(cd(&at("'+0 days'"), CountdownMode::Days), "today");
    assert_eq!(cd(&at("'+1 day'"), CountdownMode::Days), "tomorrow");
    assert_eq!(cd(&at("'+5 days'"), CountdownMode::Days), "5 days");
    assert_eq!(cd(&at("'+21 days'"), CountdownMode::Weeks), "3 weeks");
    assert_eq!(cd(&at("'+2 days'"), CountdownMode::Hours), "48 hours");
    assert_eq!(cd(&at("'-2 days'"), CountdownMode::Days), "overdue by 2 days");

    // Fixed unit, less than one unit away: a fraction, not "0".
    assert_eq!(cd(&at("'+5 days'"), CountdownMode::Weeks), "0.71 weeks");
    assert_eq!(cd(&at("'+0 days'"), CountdownMode::Weeks), "today");
    assert_eq!(cd(&at("'+0 days'"), CountdownMode::Months), "today");
    let m = cd(&at("'+10 days'"), CountdownMode::Months);
    assert!(m.starts_with("0.3") && m.ends_with(" months"), "got {m}");
    // A whole count still reads as an integer.
    assert_eq!(cd(&at("'+14 days'"), CountdownMode::Weeks), "2 weeks");

    assert_eq!(cd(&at("'+3 days'"), CountdownMode::Optimal), "3 days");
    assert_eq!(cd(&at("'+8 days'"), CountdownMode::Optimal), "1 week and 1 day");
    assert_eq!(cd(&at("'+14 days'"), CountdownMode::Optimal), "2 weeks");
    assert!(cd(&at("'+1 month','+3 days'"), CountdownMode::Optimal).starts_with("1 month"));
}

#[test]
fn deadlined_tree_keeps_deadline_bearing_branches_and_their_ancestors() {
    let conn = open_in_memory().unwrap();

    let a = root(&conn, "A");
    let a1 = child(&conn, "A1", &a.id);
    let a1a = child(&conn, "A1a", &a1.id);
    child(&conn, "A2", &a.id); // sibling of A1, no deadline -> dropped
    set_task_deadline(&conn, &a1a.id, Some("2099-01-01")).unwrap();

    let b = root(&conn, "B");
    child(&conn, "B1", &b.id); // no deadline -> dropped
    set_task_deadline(&conn, &b.id, Some("2000-01-01")).unwrap();

    let c = root(&conn, "C");
    child(&conn, "C1", &c.id); // nothing deadlined here -> C dropped entirely

    // A deadline buried under a done parent stays hidden.
    let d = root(&conn, "D");
    let d1 = child(&conn, "D1", &d.id);
    let d1a = child(&conn, "D1a", &d1.id);
    set_task_deadline(&conn, &d1a.id, Some("2099-06-01")).unwrap();
    set_task_status(&conn, &d1.id, TaskStatus::Done).unwrap();

    let tree = list_deadlined_tree(&conn).unwrap();
    let shape: Vec<_> = tree
        .iter()
        .map(|n| (n.task.title.as_str(), n.depth, n.has_children, n.is_last_child, n.overdue))
        .collect();
    assert_eq!(
        shape,
        [
            ("A", 0, true, false, false),
            // A1 is now the last visible child of A (A2 was pruned).
            ("A1", 1, true, true, false),
            ("A1a", 2, false, true, false),
            ("B", 0, false, true, true),
        ]
    );
}

#[test]
fn deadline_items_lists_dated_open_tasks_in_date_order() {
    let conn = open_in_memory().unwrap();
    let past = date_at(&conn, "'-3 days'");
    let soon = date_at(&conn, "'+2 days'");

    let a = root(&conn, "Zebra");
    set_task_deadline(&conn, &a.id, Some(&soon)).unwrap();
    let b = root(&conn, "Apple");
    set_task_deadline(&conn, &b.id, Some(&past)).unwrap();
    let c = root(&conn, "no deadline"); // excluded - no deadline
    let _ = c;
    let d = root(&conn, "done and dated");
    set_task_deadline(&conn, &d.id, Some(&soon)).unwrap();
    set_task_status(&conn, &d.id, TaskStatus::Done).unwrap(); // excluded - done

    let items = deadline_items(&conn).unwrap();
    let shape: Vec<_> = items
        .iter()
        .map(|i| (i.title.as_str(), i.deadline.as_str(), i.overdue))
        .collect();
    assert_eq!(shape, [("Apple", past.as_str(), true), ("Zebra", soon.as_str(), false)]);
}

#[test]
fn task_tree_is_preordered_with_depth_and_child_flags() {
    let conn = open_in_memory().unwrap();
    let a = root(&conn, "A");
    let a1 = child(&conn, "A1", &a.id);
    child(&conn, "A1a", &a1.id);
    child(&conn, "A2", &a.id);
    root(&conn, "B");

    let tree = list_task_tree(&conn, &ProjectFilter::All, true).unwrap();
    let shape: Vec<_> = tree
        .iter()
        .map(|n| (n.task.title.as_str(), n.depth, n.has_children))
        .collect();
    assert_eq!(
        shape,
        [("A", 0, true), ("A1", 1, true), ("A1a", 2, false), ("A2", 1, false), ("B", 0, false)]
    );
}

#[test]
fn tree_guide_flags_track_last_child_and_ancestor_branches() {
    let conn = open_in_memory().unwrap();
    let a = root(&conn, "A");
    let a1 = child(&conn, "A1", &a.id);
    child(&conn, "A1a", &a1.id); // only child of A1
    child(&conn, "A2", &a.id); // last child of A
    root(&conn, "B"); // last root

    let tree = list_task_tree(&conn, &ProjectFilter::All, true).unwrap();
    let by: Vec<_> = tree
        .iter()
        .map(|n| (n.task.title.as_str(), n.is_last_child, n.branch_more.clone()))
        .collect();
    assert_eq!(
        by,
        [
            ("A", false, vec![]),
            ("A1", false, vec![true]),
            ("A1a", true, vec![true, false]),
            ("A2", true, vec![false]),
            ("B", true, vec![]),
        ]
    );
}

#[test]
fn siblings_keep_insertion_order_within_a_parent() {
    let conn = open_in_memory().unwrap();
    let a = root(&conn, "A");
    let first = child(&conn, "first", &a.id);
    let second = child(&conn, "second", &a.id);
    assert!(first.sort_order < second.sort_order);
    assert_eq!(titles(&conn), ["A", "first", "second"]);
}

#[test]
fn rename_trims_and_persists() {
    let conn = open_in_memory().unwrap();
    let t = root(&conn, "old");
    rename_task(&conn, &t.id, "  new  ").unwrap();
    assert_eq!(get_task(&conn, &t.id).unwrap().unwrap().title, "new");
}

#[test]
fn done_tasks_hidden_unless_included_and_listed_separately() {
    let conn = open_in_memory().unwrap();
    let keep = root(&conn, "keep");
    let parent = root(&conn, "parent");
    let buried = child(&conn, "buried", &parent.id);
    let finished = root(&conn, "finished");

    set_task_status(&conn, &finished.id, TaskStatus::Done).unwrap();
    set_task_status(&conn, &parent.id, TaskStatus::Done).unwrap();

    // Active view: no done task, and nothing nested under a done parent.
    let active: Vec<_> = list_task_tree(&conn, &ProjectFilter::All, false)
        .unwrap()
        .into_iter()
        .map(|n| n.task.title)
        .collect();
    assert_eq!(active, ["keep"]);

    // Including done brings the whole tree back.
    let all: Vec<_> = list_task_tree(&conn, &ProjectFilter::All, true)
        .unwrap()
        .into_iter()
        .map(|n| n.task.title)
        .collect();
    assert_eq!(all, ["keep", "parent", "buried", "finished"]);

    // The finished list is flat and holds only completed tasks.
    let done: Vec<_> = list_finished_tasks(&conn)
        .unwrap()
        .into_iter()
        .map(|n| (n.task.title, n.depth))
        .collect();
    assert_eq!(done.len(), 2);
    assert!(done.contains(&("finished".to_owned(), 0)));
    assert!(done.contains(&("parent".to_owned(), 0)));
    let _ = (keep, buried);
}

#[test]
fn has_children_ignores_done_children_in_active_view() {
    let conn = open_in_memory().unwrap();
    let parent = root(&conn, "parent");
    let only_kid = child(&conn, "kid", &parent.id);
    set_task_status(&conn, &only_kid.id, TaskStatus::Done).unwrap();

    let active = list_task_tree(&conn, &ProjectFilter::All, false).unwrap();
    assert_eq!(active.len(), 1);
    assert!(!active[0].has_children, "parent's only child is done, so no disclosure control");
}

#[test]
fn only_one_running_timer_allowed() {
    let conn = open_in_memory().unwrap();
    let t = root(&conn, "task");
    let insert_open = |suffix: &str| {
        let id = format!("e{suffix}");
        conn.execute(
            "INSERT INTO time_entries (id, task_id, start_ts, created_at)
             VALUES (?1, ?2, '2026-01-01T00:00:00Z', '2026-01-01T00:00:00Z')",
            [id.as_str(), t.id.as_str()],
        )
    };
    assert!(insert_open("1").is_ok());
    assert!(insert_open("2").is_err(), "second open entry must be rejected");
}

#[test]
fn project_filter_scopes_the_tree_and_subtasks_inherit() {
    let conn = open_in_memory().unwrap();
    let work = create_project(&conn, "Work").unwrap();

    let filed = create_task(&conn, "filed", None, Some(&work.id)).unwrap();
    let sub = create_task(&conn, "sub", Some(&filed.id), None).unwrap();
    root(&conn, "loose");

    // Subtask inherited the parent's project despite passing None.
    assert_eq!(get_task(&conn, &sub.id).unwrap().unwrap().project_id, Some(work.id.clone()));

    let in_work: Vec<_> = list_task_tree(&conn, &ProjectFilter::Only(work.id.clone()), true)
        .unwrap()
        .into_iter()
        .map(|n| n.task.title)
        .collect();
    assert_eq!(in_work, ["filed", "sub"]);

    let unfiled: Vec<_> = list_task_tree(&conn, &ProjectFilter::Unfiled, true)
        .unwrap()
        .into_iter()
        .map(|n| n.task.title)
        .collect();
    assert_eq!(unfiled, ["loose"]);
}

#[test]
fn deleting_a_project_unfiles_its_tasks() {
    let conn = open_in_memory().unwrap();
    let p = create_project(&conn, "Temp").unwrap();
    let t = create_task(&conn, "t", None, Some(&p.id)).unwrap();

    delete_project(&conn, &p.id).unwrap();

    assert!(list_projects(&conn).unwrap().is_empty());
    assert_eq!(get_task(&conn, &t.id).unwrap().unwrap().project_id, None);
}

#[test]
fn move_task_carries_its_subtree() {
    let conn = open_in_memory().unwrap();
    let p = create_project(&conn, "P").unwrap();
    let parent = root(&conn, "parent");
    let kid = child(&conn, "kid", &parent.id);

    set_task_project(&conn, &parent.id, Some(&p.id)).unwrap();

    assert_eq!(get_task(&conn, &parent.id).unwrap().unwrap().project_id, Some(p.id.clone()));
    assert_eq!(get_task(&conn, &kid.id).unwrap().unwrap().project_id, Some(p.id));
}

#[test]
fn deadline_set_clear_and_overdue_flag() {
    let conn = open_in_memory().unwrap();
    let t = root(&conn, "task");
    assert_eq!(node(&conn, &t.id).task.deadline, None);
    assert!(!node(&conn, &t.id).overdue);

    set_task_deadline(&conn, &t.id, Some("2000-01-01")).unwrap();
    assert_eq!(node(&conn, &t.id).task.deadline.as_deref(), Some("2000-01-01"));
    assert!(node(&conn, &t.id).overdue, "a past date is overdue");

    // A completed task is never overdue.
    set_task_status(&conn, &t.id, TaskStatus::Done).unwrap();
    assert!(!node(&conn, &t.id).overdue);

    // A future date is not overdue.
    set_task_status(&conn, &t.id, TaskStatus::Todo).unwrap();
    set_task_deadline(&conn, &t.id, Some("2999-12-31")).unwrap();
    assert!(!node(&conn, &t.id).overdue);

    set_task_deadline(&conn, &t.id, None).unwrap();
    assert_eq!(node(&conn, &t.id).task.deadline, None);
}

#[test]
fn malformed_deadline_is_ignored() {
    let conn = open_in_memory().unwrap();
    let t = root(&conn, "task");
    set_task_deadline(&conn, &t.id, Some("31/12/2026")).unwrap();
    set_task_deadline(&conn, &t.id, Some("not a date")).unwrap();
    assert_eq!(node(&conn, &t.id).task.deadline, None);
}

#[test]
fn timer_start_stop_and_switch() {
    let conn = open_in_memory().unwrap();
    let a = root(&conn, "a");
    let b = root(&conn, "b");

    assert!(running_timer(&conn).unwrap().is_none());

    let e1 = start_timer(&conn, &a.id).unwrap();
    assert!(e1.end_ts.is_none());
    assert_eq!(running_timer(&conn).unwrap().unwrap().task_id, a.id);

    // Starting on another task closes the first entry.
    start_timer(&conn, &b.id).unwrap();
    assert!(get_entry(&conn, &e1.id).unwrap().unwrap().end_ts.is_some());
    assert_eq!(running_timer(&conn).unwrap().unwrap().task_id, b.id);

    let stopped = stop_timer(&conn).unwrap().unwrap();
    assert_eq!(stopped.task_id, b.id);
    assert!(stopped.end_ts.is_some());
    assert!(running_timer(&conn).unwrap().is_none());

    // Stopping again is a harmless no-op.
    assert!(stop_timer(&conn).unwrap().is_none());
}

#[test]
fn entry_duration_seconds_reads_a_closed_span() {
    let conn = open_in_memory().unwrap();
    let t = root(&conn, "t");
    conn.execute(
        "INSERT INTO time_entries (id, task_id, start_ts, end_ts, created_at)
         VALUES ('d1', ?1, '2026-03-01T09:00:00', '2026-03-01T09:45:30', '2026-03-01T09:45:30')",
        [t.id.as_str()],
    )
    .unwrap();
    assert_eq!(entry_duration_seconds(&conn, "d1").unwrap(), 45 * 60 + 30);
    // Open or missing entries read as zero.
    start_timer(&conn, &t.id).unwrap();
    let open = running_entry(&conn).unwrap().unwrap();
    assert_eq!(entry_duration_seconds(&conn, &open.id).unwrap(), 0);
    assert_eq!(entry_duration_seconds(&conn, "nope").unwrap(), 0);
}

#[test]
fn meta_get_set_roundtrips_and_upserts() {
    let conn = open_in_memory().unwrap();
    assert_eq!(get_meta(&conn, "k").unwrap(), None);
    set_meta(&conn, "k", "one").unwrap();
    assert_eq!(get_meta(&conn, "k").unwrap().as_deref(), Some("one"));
    set_meta(&conn, "k", "two").unwrap();
    assert_eq!(get_meta(&conn, "k").unwrap().as_deref(), Some("two"));
}

#[test]
fn recover_orphan_timer_closes_at_heartbeat() {
    let conn = open_in_memory().unwrap();
    let t = root(&conn, "t");
    // A run a crash left open, started well in the past.
    conn.execute(
        "INSERT INTO time_entries (id, task_id, start_ts, created_at)
         VALUES ('c1', ?1, '2026-03-01T09:00:00', '2026-03-01T09:00:00')",
        [t.id.as_str()],
    )
    .unwrap();
    set_meta(&conn, "timer_heartbeat", "2026-03-01T09:20:00").unwrap();

    let rec = recover_orphan_timer(&conn).unwrap().unwrap();
    assert_eq!(rec.task_id, t.id);
    assert_eq!(rec.task_title, "t");
    assert_eq!(rec.seconds, 20 * 60);

    // Entry closed exactly at the heartbeat; nothing still running.
    assert!(running_timer(&conn).unwrap().is_none());
    assert_eq!(
        get_entry(&conn, "c1").unwrap().unwrap().end_ts.as_deref(),
        Some("2026-03-01T09:20:00")
    );
    // Idempotent: a second call finds nothing open.
    assert!(recover_orphan_timer(&conn).unwrap().is_none());
}

#[test]
fn recover_orphan_timer_clamps_missing_or_stale_heartbeat_to_start() {
    let conn = open_in_memory().unwrap();
    let t = root(&conn, "t");
    conn.execute(
        "INSERT INTO time_entries (id, task_id, start_ts, created_at)
         VALUES ('c1', ?1, '2026-03-01T09:00:00', '2026-03-01T09:00:00')",
        [t.id.as_str()],
    )
    .unwrap();
    // Heartbeat older than the entry's start: don't bill negative time.
    set_meta(&conn, "timer_heartbeat", "2026-02-14T08:00:00").unwrap();

    let rec = recover_orphan_timer(&conn).unwrap().unwrap();
    assert_eq!(rec.seconds, 0);
    assert_eq!(
        get_entry(&conn, "c1").unwrap().unwrap().end_ts.as_deref(),
        Some("2026-03-01T09:00:00")
    );
}

#[test]
fn recover_orphan_timer_noop_without_an_open_entry() {
    let conn = open_in_memory().unwrap();
    let t = root(&conn, "t");
    start_timer(&conn, &t.id).unwrap();
    stop_timer(&conn).unwrap();
    assert!(recover_orphan_timer(&conn).unwrap().is_none());
}

#[test]
fn manual_entries_add_list_edit_delete() {
    let conn = open_in_memory().unwrap();
    let t = root(&conn, "task");

    let e = add_manual_entry(&conn, &t.id, "2026-03-01 09:00", "2026-03-01T10:30", "  morning  ")
        .unwrap()
        .unwrap();
    assert_eq!(e.start_ts, "2026-03-01T09:00:00");
    assert_eq!(e.note, "morning");

    let rows = list_entries_for_task(&conn, &t.id).unwrap();
    assert_eq!(rows.len(), 1);
    assert_eq!(rows[0].seconds, 90 * 60);

    assert!(update_entry(&conn, &e.id, "2026-03-01T09:00", "2026-03-01T09:15", "short").unwrap());
    assert_eq!(list_entries_for_task(&conn, &t.id).unwrap()[0].seconds, 15 * 60);

    delete_entry(&conn, &e.id).unwrap();
    assert!(list_entries_for_task(&conn, &t.id).unwrap().is_empty());
}

#[test]
fn manual_entry_rejects_bad_input() {
    let conn = open_in_memory().unwrap();
    let t = root(&conn, "task");
    // end before start
    assert!(add_manual_entry(&conn, &t.id, "2026-03-01T10:00", "2026-03-01T09:00", "")
        .unwrap()
        .is_none());
    // malformed
    assert!(add_manual_entry(&conn, &t.id, "March 1", "later", "").unwrap().is_none());
    assert!(list_entries_for_task(&conn, &t.id).unwrap().is_empty());
}

#[test]
fn list_entries_includes_the_running_timer_with_zero_duration() {
    let conn = open_in_memory().unwrap();
    let t = root(&conn, "task");
    start_timer(&conn, &t.id).unwrap();
    let rows = list_entries_for_task(&conn, &t.id).unwrap();
    assert_eq!(rows.len(), 1);
    assert!(rows[0].entry.end_ts.is_none());
    assert_eq!(rows[0].seconds, 0);
}

#[test]
fn time_totals_roll_up_over_subtree_and_scope() {
    let conn = open_in_memory().unwrap();
    let proj = create_project(&conn, "P").unwrap();
    let parent = create_task(&conn, "parent", None, Some(&proj.id)).unwrap();
    let kid = create_task(&conn, "kid", Some(&parent.id), None).unwrap();
    let grandkid = create_task(&conn, "grandkid", Some(&kid.id), None).unwrap();
    let loner = root(&conn, "loner"); // no project

    closed_entry(&conn, &parent.id, "2026-03-01T09:00:00", "2026-03-01T10:00:00"); // 1h
    closed_entry(&conn, &kid.id, "2026-03-02T09:00:00", "2026-03-02T09:30:00"); // 30m
    closed_entry(&conn, &grandkid.id, "2026-03-03T09:00:00", "2026-03-03T11:00:00"); // 2h
    closed_entry(&conn, &loner.id, "2026-03-04T09:00:00", "2026-03-04T09:15:00"); // 15m
    start_timer(&conn, &parent.id).unwrap(); // running: counts 0

    // Own vs whole subtree.
    assert_eq!(task_seconds(&conn, &parent.id, false).unwrap(), 3600);
    assert_eq!(task_seconds(&conn, &parent.id, true).unwrap(), 3600 + 1800 + 7200);
    assert_eq!(task_seconds(&conn, &kid.id, true).unwrap(), 1800 + 7200);
    assert_eq!(task_seconds(&conn, &grandkid.id, true).unwrap(), 7200);

    assert!(has_subtasks(&conn, &parent.id).unwrap());
    assert!(!has_subtasks(&conn, &grandkid.id).unwrap());

    // Scope totals.
    assert_eq!(
        scope_seconds(&conn, &ProjectFilter::Only(proj.id.clone())).unwrap(),
        3600 + 1800 + 7200
    );
    assert_eq!(scope_seconds(&conn, &ProjectFilter::Unfiled).unwrap(), 900);
    assert_eq!(scope_seconds(&conn, &ProjectFilter::All).unwrap(), 3600 + 1800 + 7200 + 900);
}

#[test]
fn heatmap_year_is_a_squared_371_cell_grid() {
    let conn = open_in_memory().unwrap();
    let cells = heatmap(&conn, &SeriesTarget::All, HeatRange::Year, "2026-06-15").unwrap();

    assert_eq!(cells.len(), 371); // always 53 weeks x 7 days
    assert_eq!(cells.iter().filter(|c| c.in_period).count(), 365); // 2026 not a leap year
    assert_eq!(cells.first().unwrap().date, "2025-12-29"); // Monday before Jan 1
    assert_eq!(cells.last().unwrap().date, "2027-01-03"); // Sunday after Dec 31
    assert!(cells.windows(2).all(|w| w[0].date < w[1].date)); // date order
    // A leap year still squares off to 371 with 366 in-period days.
    let leap = heatmap(&conn, &SeriesTarget::All, HeatRange::Year, "2024-01-01").unwrap();
    assert_eq!(leap.len(), 371);
    assert_eq!(leap.iter().filter(|c| c.in_period).count(), 366);
}

#[test]
fn heatmap_week_and_month_grids() {
    let conn = open_in_memory().unwrap();

    // Week: Monday..Sunday of the anchor's week, all in-period.
    let wk = heatmap(&conn, &SeriesTarget::All, HeatRange::Week, "2026-09-10").unwrap();
    assert_eq!(wk.len(), 7);
    assert_eq!(wk.first().unwrap().date, "2026-09-07"); // Monday
    assert_eq!(wk.last().unwrap().date, "2026-09-13"); // Sunday
    assert!(wk.iter().all(|c| c.in_period));

    // Month: Monday-aligned weeks spanning the month; March 2026 needs 6.
    let mar = heatmap(&conn, &SeriesTarget::All, HeatRange::Month, "2026-03-20").unwrap();
    assert_eq!(mar.len(), 42);
    assert_eq!(mar.first().unwrap().date, "2026-02-23"); // Monday before Mar 1
    assert_eq!(mar.last().unwrap().date, "2026-04-05"); // Sunday after Mar 31
    assert_eq!(mar.iter().filter(|c| c.in_period).count(), 31);
    // Any month's grid is a whole number of weeks and holds exactly its days.
    let feb = heatmap(&conn, &SeriesTarget::All, HeatRange::Month, "2026-02-15").unwrap();
    assert_eq!(feb.len() % 7, 0);
    assert_eq!(feb.iter().filter(|c| c.in_period).count(), 28);
}

#[test]
fn heatmap_scopes_and_counts_by_day() {
    let conn = open_in_memory().unwrap();
    let proj = create_project(&conn, "P").unwrap();
    let parent = create_task(&conn, "parent", None, Some(&proj.id)).unwrap();
    let kid = create_task(&conn, "kid", Some(&parent.id), None).unwrap();
    let other = root(&conn, "other");

    closed_entry(&conn, &parent.id, "2026-03-01T09:00:00", "2026-03-01T10:00:00"); // 1h, day 03-01
    closed_entry(&conn, &kid.id, "2026-03-01T14:00:00", "2026-03-01T14:30:00"); // 30m, day 03-01
    closed_entry(&conn, &kid.id, "2026-03-05T09:00:00", "2026-03-05T11:00:00"); // 2h,  day 03-05
    closed_entry(&conn, &other.id, "2026-03-01T09:00:00", "2026-03-01T12:00:00"); // 3h, other task
    closed_entry(&conn, &kid.id, "2025-12-31T09:00:00", "2025-12-31T10:00:00"); // 1h, a pad day

    // Subtree = parent + kid; `other` is excluded.
    let sub = heatmap(&conn, &SeriesTarget::TaskSubtree(parent.id.clone()), HeatRange::Year, "2026-01-01")
        .unwrap();
    assert_eq!(sub.len(), 371);
    assert_eq!(day_secs(&sub, "2026-03-01"), 5400);
    assert_eq!(day_secs(&sub, "2026-03-05"), 7200);
    assert_eq!(day_secs(&sub, "2026-03-02"), 0); // dense: a quiet day is still a cell
    assert_eq!(day_secs(&sub, "2025-12-31"), 3600); // pad days carry their totals too

    // Project scope == subtree here (kid inherits P).
    let proj = heatmap(&conn, &SeriesTarget::Project(proj.id), HeatRange::Year, "2026-01-01").unwrap();
    assert_eq!(proj.len(), 371);
    assert_eq!(day_secs(&proj, "2026-03-01"), 5400);

    // All picks up `other` on top. Row count matches across every target.
    let all = heatmap(&conn, &SeriesTarget::All, HeatRange::Year, "2026-01-01").unwrap();
    assert_eq!(all.len(), 371);
    assert_eq!(day_secs(&all, "2026-03-01"), 5400 + 10800);

    // A month view of March scopes to that month's cells only.
    let mar = heatmap(&conn, &SeriesTarget::TaskSubtree(parent.id), HeatRange::Month, "2026-03-15").unwrap();
    assert_eq!(day_secs(&mar, "2026-03-01"), 5400);
    assert_eq!(day_secs(&mar, "2026-03-05"), 7200);
}

#[test]
fn heatmap_ignores_running_timer() {
    let conn = open_in_memory().unwrap();
    let t = root(&conn, "t");
    start_timer(&conn, &t.id).unwrap();
    let cells = heatmap(&conn, &SeriesTarget::All, HeatRange::Year, "2026-01-01").unwrap();
    assert_eq!(cells.len(), 371);
    assert!(cells.iter().all(|c| c.seconds == 0));
}

#[test]
fn heat_at_latest_tracks_the_current_period() {
    let conn = open_in_memory().unwrap();
    let today: String = conn.query_row("SELECT date('now','localtime')", [], |r| r.get(0)).unwrap();
    let this_year = snap_anchor(&conn, HeatRange::Year, &today).unwrap();

    assert!(heat_at_latest(&conn, HeatRange::Year, &this_year).unwrap());
    let last_year = step_anchor(&conn, HeatRange::Year, &this_year, -1).unwrap();
    assert!(!heat_at_latest(&conn, HeatRange::Year, &last_year).unwrap());
    // A future period also counts as "nothing newer to page to".
    let next_year = step_anchor(&conn, HeatRange::Year, &this_year, 1).unwrap();
    assert!(heat_at_latest(&conn, HeatRange::Year, &next_year).unwrap());
}

#[test]
fn anchor_snapping_and_stepping_do_not_drift() {
    let conn = open_in_memory().unwrap();

    // Snap: any day in the period -> its first day.
    assert_eq!(snap_anchor(&conn, HeatRange::Week, "2026-09-10").unwrap(), "2026-09-07");
    assert_eq!(snap_anchor(&conn, HeatRange::Month, "2026-09-30").unwrap(), "2026-09-01");
    assert_eq!(snap_anchor(&conn, HeatRange::Year, "2026-12-31").unwrap(), "2026-01-01");

    // Step: from a month end, forward must land in the next month, not skip it.
    let jan = snap_anchor(&conn, HeatRange::Month, "2026-01-31").unwrap();
    assert_eq!(jan, "2026-01-01");
    assert_eq!(step_anchor(&conn, HeatRange::Month, &jan, 1).unwrap(), "2026-02-01");
    assert_eq!(step_anchor(&conn, HeatRange::Month, "2026-03-01", -1).unwrap(), "2026-02-01");
    assert_eq!(step_anchor(&conn, HeatRange::Week, "2026-09-07", 1).unwrap(), "2026-09-14");
    assert_eq!(step_anchor(&conn, HeatRange::Year, "2026-01-01", -1).unwrap(), "2025-01-01");
}

#[test]
fn projects_listed_by_name_case_insensitive() {
    let conn = open_in_memory().unwrap();
    create_project(&conn, "  banana ").unwrap();
    create_project(&conn, "Apple").unwrap();
    let names: Vec<_> = list_projects(&conn).unwrap().into_iter().map(|p| p.name).collect();
    assert_eq!(names, ["Apple", "banana"]);
}

#[test]
fn rows_decode_into_cells_items_and_timers() {
    let cell = row_to_heat_cell(&vec![
        SqlValue::Text("2026-03-01".to_owned()),
        SqlValue::Integer(0),
        SqlValue::Integer(5400),
    ])
    .unwrap();
    assert_eq!(cell.date, "2026-03-01");
    assert!(!cell.in_period);
    assert_eq!(cell.seconds, 5400);
    assert!(row_to_heat_cell(&vec![SqlValue::Text("d".to_owned()), SqlValue::Null, SqlValue::Integer(1)]).is_err());

    let item = row_to_deadline_item(&vec![
        SqlValue::Text("t1".to_owned()),
        SqlValue::Text("Ship".to_owned()),
        SqlValue::Text("2026-01-02".to_owned()),
        SqlValue::Integer(1),
        SqlValue::Text(String::new()),
    ])
    .unwrap();
    assert_eq!(item.id, "t1");
    assert_eq!(item.title, "Ship");
    assert_eq!(item.deadline, "2026-01-02");
    assert!(item.overdue);
    assert_eq!(item.project, "");

    let rt = row_to_running_timer(&vec![
        SqlValue::Text("e1".to_owned()),
        SqlValue::Text("t1".to_owned()),
        SqlValue::Text("Ship".to_owned()),
        SqlValue::Text("2026-01-02T09:00:00".to_owned()),
    ])
    .unwrap();
    assert_eq!(rt.entry_id, "e1");
    assert_eq!(rt.task_title, "Ship");
    assert!(row_to_running_timer(&vec![SqlValue::Text("e1".to_owned())]).is_err());
}

#[test]
fn countdown_of_a_date_missing_from_the_calendar_is_empty() {
    let conn = open_in_memory().unwrap();
    assert_eq!(deadline_countdown(&conn, "2026-13-01", CountdownMode::Days).unwrap(), "");
    assert_eq!(deadline_countdown(&conn, "2026-02-30", CountdownMode::Optimal).unwrap(), "");
    assert_eq!(deadline_countdown(&conn, "2026-00-10", CountdownMode::Weeks).unwrap(), "");
    assert_eq!(deadline_countdown(&conn, "2100-02-29", CountdownMode::Hours).unwrap(), "");
    assert_ne!(deadline_countdown(&conn, "2028-02-29", CountdownMode::Days).unwrap(), "");
}
