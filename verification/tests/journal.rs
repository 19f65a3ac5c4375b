use uhatt::domain::TaskStatus;
use uhatt::journal::{
    create_record, deadline_record, delete_record, import_record, notes_record, parent_slots,
    project_record, rename_record, reparent_record, revert_plan, snapshot_project_of,
    status_record, task_id_of, EntrySnapshot, RevertStep, TaskSnapshot,
};

fn snap(id: &str, parent: Option<&str>, title: &str) -> TaskSnapshot {
    TaskSnapshot {
        id: id.to_owned(),
        parent_task_id: parent.map(|p| p.to_owned()),
        project_id: Some("proj".to_owned()),
        title: title.to_owned(),
        notes: "n\"q".to_owned(),
        deadline: None,
        track: true,
        status: "todo".to_owned(),
        sort_order: 2,
        created_at: "2026-01-01T09:00:00".to_owned(),
        initial_time_seconds: Some(5400),
        completed_at: None,
    }
}

fn entry(id: &str, task: &str) -> EntrySnapshot {
    EntrySnapshot {
        id: id.to_owned(),
        task_id: task.to_owned(),
        start_ts: "2026-01-01T09:00:00".to_owned(),
        end_ts: Some("2026-01-01T10:00:00".to_owned()),
        source: "manual".to_owned(),
        note: "worked".to_owned(),
        created_at: "2026-01-01T10:00:00".to_owned(),
    }
}

#[test]
fn record_texts_for_simple_edits() {
    let r = create_record("t1", "write plan");
    assert_eq!(r.kind, "create_task");
    assert_eq!(r.summary, "Created task \"write plan\"");
    assert_eq!(r.payload, "{\"id\":\"t1\"}");

    let r = rename_record("t1", "old", "new");
    assert_eq!(r.kind, "rename_task");
    assert_eq!(r.summary, "Renamed \"old\" to \"new\"");
    assert_eq!(r.payload, "{\"id\":\"t1\",\"old_title\":\"old\"}");

    let r = notes_record("t1", "task", "line1\nline2");
    assert_eq!(r.summary, "Edited notes on \"task\"");
    assert_eq!(r.payload, "{\"id\":\"t1\",\"old_notes\":\"line1\\nline2\"}");

    let r = deadline_record("t1", "task", None, Some("2026-01-01"));
    assert_eq!(r.summary, "Set deadline on \"task\" to 2026-01-01");
    assert_eq!(r.payload, "{\"id\":\"t1\",\"old_deadline\":null}");
    let r = deadline_record("t1", "task", Some("2025-12-31"), None);
    assert_eq!(r.summary, "Cleared deadline on \"task\"");
    assert_eq!(r.payload, "{\"id\":\"t1\",\"old_deadline\":\"2025-12-31\"}");

    let r = status_record("t1", "task", TaskStatus::Todo, true);
    assert_eq!(r.summary, "Marked \"task\" done");
    assert_eq!(r.payload, "{\"id\":\"t1\",\"old_status\":\"todo\"}");
    let r = status_record("t1", "task", TaskStatus::Done, false);
    assert_eq!(r.summary, "Marked \"task\" not done");
}

#[test]
fn record_texts_for_moves() {
    let map = vec![("a".to_owned(), Some("p1".to_owned())), ("b".to_owned(), None)];
    let r = project_record("a", "T", &map, "");
    assert_eq!(r.kind, "set_project");
    assert_eq!(r.summary, "Moved \"T\" to Unfiled");
    assert_eq!(r.payload, "{\"id\":\"a\",\"old_project_ids\":{\"a\":\"p1\",\"b\":null}}");
    let r = project_record("a", "T", &map, "Work");
    assert_eq!(r.summary, "Moved \"T\" to project \"Work\"");

    let r = reparent_record("c", "C", Some("a"), 3, &map, "B");
    assert_eq!(r.kind, "reparent");
    assert_eq!(r.summary, "Moved \"C\" under \"B\"");
    assert_eq!(
        r.payload,
        "{\"id\":\"c\",\"old_parent_id\":\"a\",\"old_sort_order\":3,\"old_project_ids\":{\"a\":\"p1\",\"b\":null}}"
    );
}

#[test]
fn delete_and_import_records() {
    assert!(delete_record(&vec![], &vec![]).is_none());
    let one = delete_record(&vec![snap("p", None, "parent")], &vec![]).unwrap();
    assert_eq!(one.summary, "Deleted task \"parent\"");
    let two = delete_record(
        &vec![snap("p", None, "parent"), snap("k", Some("p"), "kid")],
        &vec![entry("e1", "k")],
    )
    .unwrap();
    assert_eq!(two.kind, "delete_task");
    assert_eq!(two.summary, "Deleted task \"parent\" and 1 more");
    assert!(two.payload.starts_with("{\"entries\":[{\"id\":\"e1\""));

    let r = import_record("Plan", "pid", &vec!["t1".to_owned()]);
    assert_eq!(r.kind, "import_project");
    assert_eq!(r.summary, "Created project \"Plan\" with 1 task");
    assert_eq!(r.payload, "{\"project_id\":\"pid\",\"task_ids\":[\"t1\"]}");
    let r = import_record("Plan", "pid", &vec!["t1".to_owned(), "t2".to_owned()]);
    assert_eq!(r.summary, "Created project \"Plan\" with 2 tasks");
}

#[test]
fn plans_undo_simple_edits() {
    let r = create_record("t1", "x");
    assert_eq!(revert_plan(&r.kind, &r.payload), vec![RevertStep::DeleteTask("t1".to_owned())]);

    let r = rename_record("t1", "old \"one\"", "new");
    assert_eq!(
        revert_plan(&r.kind, &r.payload),
        vec![RevertStep::Rename { id: "t1".to_owned(), title: "old \"one\"".to_owned() }]
    );

    let r = notes_record("t1", "x", "a\nb");
    assert_eq!(
        revert_plan(&r.kind, &r.payload),
        vec![RevertStep::SetNotes { id: "t1".to_owned(), notes: "a\nb".to_owned() }]
    );

    let r = deadline_record("t1", "x", None, Some("2026-01-01"));
    assert_eq!(
        revert_plan(&r.kind, &r.payload),
        vec![RevertStep::SetDeadline { id: "t1".to_owned(), deadline: None }]
    );
    let r = deadline_record("t1", "x", Some("2025-05-05"), None);
    assert_eq!(
        revert_plan(&r.kind, &r.payload),
        vec![RevertStep::SetDeadline { id: "t1".to_owned(), deadline: Some("2025-05-05".to_owned()) }]
    );

    let r = status_record("t1", "x", TaskStatus::Done, false);
    assert_eq!(
        revert_plan(&r.kind, &r.payload),
        vec![RevertStep::SetStatus { id: "t1".to_owned(), status: TaskStatus::Done }]
    );
}

#[test]
fn plans_read_back_escaped_text() {
    let odd = "tab\there \u{1}\u{1f} back\\slash \"q\" é 😀 /~";
    let r = notes_record("t/1~", "x", odd);
    assert_eq!(
        revert_plan(&r.kind, &r.payload),
        vec![RevertStep::SetNotes { id: "t/1~".to_owned(), notes: odd.to_owned() }]
    );
    let r = rename_record("t2", odd, "new");
    assert_eq!(
        revert_plan(&r.kind, &r.payload),
        vec![RevertStep::Rename { id: "t2".to_owned(), title: odd.to_owned() }]
    );
}

#[test]
fn plans_undo_moves_in_key_order() {
    let map = vec![("a".to_owned(), Some("p1".to_owned())), ("b/x~y".to_owned(), None)];
    let r = project_record("a", "T", &map, "Work");
    assert_eq!(
        revert_plan(&r.kind, &r.payload),
        vec![
            RevertStep::SetProject { id: "a".to_owned(), project: Some("p1".to_owned()) },
            RevertStep::SetProject { id: "b/x~y".to_owned(), project: None },
        ]
    );

    let r = reparent_record("c", "C", Some("a"), 7, &map, "B");
    assert_eq!(
        revert_plan(&r.kind, &r.payload),
        vec![
            RevertStep::Reparent { id: "c".to_owned(), parent: Some("a".to_owned()), sort_order: 7 },
            RevertStep::SetProject { id: "a".to_owned(), project: Some("p1".to_owned()) },
            RevertStep::SetProject { id: "b/x~y".to_owned(), project: None },
        ]
    );
    // A position written as a whole floating-point number reads back too.
    let legacy = "{\"id\":\"c\",\"old_parent_id\":null,\"old_sort_order\":3.0,\"old_project_ids\":{}}";
    assert_eq!(
        revert_plan("reparent", legacy),
        vec![RevertStep::Reparent { id: "c".to_owned(), parent: None, sort_order: 3 }]
    );
    // A fractional position is not a stored position: nothing is undone.
    let odd = "{\"id\":\"c\",\"old_parent_id\":null,\"old_sort_order\":2.5,\"old_project_ids\":{}}";
    assert!(revert_plan("reparent", odd).is_empty());
}

#[test]
fn plans_restore_deleted_snapshots_and_imports() {
    let tasks = vec![snap("p", None, "parent"), snap("k", Some("p"), "kid")];
    let entries = vec![entry("e1", "k")];
    let r = delete_record(&tasks, &entries).unwrap();
    assert_eq!(
        revert_plan(&r.kind, &r.payload),
        vec![
            RevertStep::RestoreTask(tasks[0].clone()),
            RevertStep::RestoreTask(tasks[1].clone()),
            RevertStep::RestoreEntry(entries[0].clone()),
        ]
    );

    let r = import_record("Plan", "pid", &vec!["t1".to_owned(), "t2".to_owned()]);
    assert_eq!(
        revert_plan(&r.kind, &r.payload),
        vec![
            RevertStep::DeleteTask("t1".to_owned()),
            RevertStep::DeleteTask("t2".to_owned()),
            RevertStep::DeleteProject("pid".to_owned()),
        ]
    );
}

#[test]
fn plans_are_empty_for_unknown_or_malformed_payloads() {
    assert!(revert_plan("mystery", "{\"id\":\"t1\"}").is_empty());
    assert!(revert_plan("create_task", "not json").is_empty());
    assert!(revert_plan("rename_task", "{\"id\":\"t1\"}").is_empty());
    assert!(revert_plan("create_task", "{\"id\":7}").is_empty());
    // A project map with a value that is neither a string nor null is no map.
    assert!(revert_plan("set_project", "{\"id\":\"a\",\"old_project_ids\":{\"a\":1}}").is_empty());
    // A snapshot missing a required field restores nothing.
    assert!(revert_plan("delete_task", "{\"entries\":[],\"tasks\":[{\"id\":\"p\"}]}").is_empty());
    assert!(revert_plan("import_project", "{\"project_id\":\"p\",\"task_ids\":[1]}").is_empty());
}

#[test]
fn payload_task_ids() {
    assert_eq!(task_id_of("rename_task", "{\"id\":\"t9\",\"old_title\":\"x\"}"), Some("t9".to_owned()));
    let r = delete_record(&vec![snap("p", None, "parent")], &vec![]).unwrap();
    assert_eq!(task_id_of("delete_task", &r.payload), Some("p".to_owned()));
    assert_eq!(snapshot_project_of(&r.payload), Some("proj".to_owned()));
    assert_eq!(task_id_of("create_task", "[]"), None);
}

#[test]
fn import_parents_follow_the_outline() {
    assert_eq!(
        parent_slots(&vec![0, 1, 2, 1, 0, 1]),
        vec![None, Some(0), Some(1), Some(0), None, Some(4)]
    );
    assert_eq!(parent_slots(&vec![0, 1, 1, 2, 2, 0]), vec![None, Some(0), Some(0), Some(2), Some(2), None]);
    // A depth with no open task one level up gets no parent.
    assert_eq!(parent_slots(&vec![0, 2]), vec![None, None]);
}

#[test]
fn payload_strings_escape_as_serde_json_does() {
    let r = rename_record("t", "a\u{8}b\u{c}c\u{1}d", "x");
    assert_eq!(r.payload, "{\"id\":\"t\",\"old_title\":\"a\\bb\\fc\\u0001d\"}");
    let mut m = serde_json::Map::new();
    m.insert("id".to_owned(), serde_json::Value::String("t".to_owned()));
    m.insert("old_title".to_owned(), serde_json::Value::String("a\u{8}b\u{c}c\u{1}d".to_owned()));
    assert_eq!(r.payload, serde_json::Value::Object(m).to_string());
    assert_eq!(
        revert_plan(&r.kind, &r.payload),
        vec![RevertStep::Rename { id: "t".to_owned(), title: "a\u{8}b\u{c}c\u{1}d".to_owned() }]
    );
}
