use uhatt::db::actions::{
    apply_steps, import_quick_creation, kept, logged_action, resolve_step, undo_action,
};
use uhatt::db::{create_task, delete_task, get_task, open_in_memory};
use uhatt::domain::{parse_quick_creation, TaskStatus};
use uhatt::journal::{RevertStep, TaskSnapshot};
use uhatt::sql::SqlValue;

fn snapshot(parent: Option<&str>, project: Option<&str>) -> TaskSnapshot {
    TaskSnapshot {
        id: "t".to_owned(),
        parent_task_id: parent.map(str::to_owned),
        project_id: project.map(str::to_owned),
        title: "T".to_owned(),
        notes: String::new(),
        deadline: None,
        track: true,
        status: "todo".to_owned(),
        sort_order: 3,
        created_at: "2026-01-01T00:00:00".to_owned(),
        initial_time_seconds: None,
        completed_at: None,
    }
}

#[test]
fn kept_drops_a_reference_to_a_gone_row() {
    let a = Some("a".to_owned());
    assert_eq!(kept(true, &a), Some("a".to_owned()));
    assert_eq!(kept(false, &a), None);
    assert_eq!(kept(true, &None), None);
}

#[test]
fn resolving_a_step_drops_only_gone_references() {
    let step = RevertStep::Reparent { id: "c".to_owned(), parent: Some("p".to_owned()), sort_order: 2 };
    assert_eq!(
        resolve_step(step.clone(), false, true),
        RevertStep::Reparent { id: "c".to_owned(), parent: None, sort_order: 2 }
    );
    assert_eq!(resolve_step(step.clone(), true, false), step);

    let restore = RevertStep::RestoreTask(snapshot(Some("p"), Some("j")));
    assert_eq!(
        resolve_step(restore.clone(), false, true),
        RevertStep::RestoreTask(snapshot(None, Some("j")))
    );
    assert_eq!(
        resolve_step(restore.clone(), true, false),
        RevertStep::RestoreTask(snapshot(Some("p"), None))
    );

    let rename = RevertStep::Rename { id: "c".to_owned(), title: "old".to_owned() };
    assert_eq!(resolve_step(rename.clone(), false, false), rename);
}

#[test]
fn applied_steps_report_the_fallback_to_the_root() {
    let conn = open_in_memory().unwrap();
    let r1 = create_task(&conn, "r1", None, None).unwrap();
    let c = create_task(&conn, "c", Some(&r1.id), None).unwrap();
    delete_task(&conn, &r1.id).unwrap();
    let gone = create_task(&conn, "again", None, None).unwrap();
    let lone = create_task(&conn, "lone", None, None).unwrap();
    let steps = vec![
        RevertStep::Reparent { id: lone.id.clone(), parent: Some(r1.id.clone()), sort_order: 7 },
        RevertStep::Rename { id: gone.id.clone(), title: "renamed".to_owned() },
    ];
    let undo = apply_steps(&conn, steps).unwrap();
    let done = undo.steps;
    assert_eq!(
        done[0],
        RevertStep::Reparent { id: lone.id.clone(), parent: None, sort_order: 7 }
    );
    assert_eq!(done[1], RevertStep::Rename { id: gone.id.clone(), title: "renamed".to_owned() });
    let lone_after = get_task(&conn, &lone.id).unwrap().unwrap();
    assert_eq!(lone_after.parent_id, None);
    assert_eq!(lone_after.sort_order, 7);
    assert_eq!(get_task(&conn, &gone.id).unwrap().unwrap().title, "renamed");
    assert!(get_task(&conn, &c.id).unwrap().is_none());
}

#[test]
fn undoing_a_logged_rename_puts_the_title_back() {
    let conn = open_in_memory().unwrap();
    let t = create_task(&conn, "old", None, None).unwrap();
    let payload = format!("{{\"id\":\"{}\",\"old_title\":\"old\"}}", t.id);
    uhatt::db::rename_task(&conn, &t.id, "new").unwrap();
    let undo = undo_action(&conn, "rename_task", &payload).unwrap();
    let done = undo.steps;
    assert_eq!(done, vec![RevertStep::Rename { id: t.id.clone(), title: "old".to_owned() }]);
    assert_eq!(get_task(&conn, &t.id).unwrap().unwrap().title, "old");
    // Something that is no action at all is a plan of no steps.
    assert!(undo_action(&conn, "nonsense", "{}").unwrap().steps.is_empty());
}

#[test]
fn a_log_row_reads_as_kind_and_payload_only_when_both_are_text() {
    let row = vec![SqlValue::Text("rename_task".to_owned()), SqlValue::Text("{}".to_owned())];
    assert_eq!(logged_action(&row), Some(("rename_task".to_owned(), "{}".to_owned())));
    let bad = vec![SqlValue::Text("rename_task".to_owned()), SqlValue::Null];
    assert_eq!(logged_action(&bad), None);
    assert_eq!(logged_action(&vec![]), None);
}

#[test]
fn import_reports_what_each_task_was_created_from() {
    let conn = open_in_memory().unwrap();
    let tasks = parse_quick_creation("a  |||\n\tb|||\n\t\tc|||\n\td|||\ne|||", '\t', 0)
        .into_iter()
        .map(|l| l.result.unwrap())
        .collect::<Vec<_>>();
    let o = import_quick_creation(&conn, "P", &tasks).unwrap();
    assert_eq!(o.tasks.len(), 5);
    let titles: Vec<_> = o.tasks.iter().map(|t| t.title.as_str()).collect();
    assert_eq!(titles, ["a", "b", "c", "d", "e"]);
    let parent = |k: usize| o.tasks[k].parent_id.clone();
    assert_eq!(parent(0), None);
    assert_eq!(parent(1), Some(o.tasks[0].id.clone()));
    assert_eq!(parent(2), Some(o.tasks[1].id.clone()));
    assert_eq!(parent(3), Some(o.tasks[0].id.clone()));
    assert_eq!(parent(4), None);
    assert_eq!(o.tasks[0].project_id, Some(o.project_id.clone()));
    assert_eq!(o.tasks[1].project_id, None);
    assert_eq!(o.tasks[4].project_id, Some(o.project_id.clone()));
    for t in &o.tasks {
        let stored = get_task(&conn, &t.id).unwrap().unwrap();
        assert_eq!(stored.parent_id, t.parent_id);
        assert_eq!(stored.project_id, Some(o.project_id.clone()));
        assert_eq!(stored.status, TaskStatus::Todo);
    }
}
