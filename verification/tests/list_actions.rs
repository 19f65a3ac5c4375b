use uhatt::domain::{Task, TaskStatus};
use uhatt::views::tasks::{
    deadline_target, moved, notes_change, project_target, reparent_entry, scope_project,
    status_entry, status_for,
};

fn task(parent: Option<&str>, sort_order: i64) -> Task {
    Task {
        id: "t".to_owned(),
        parent_id: parent.map(str::to_owned),
        project_id: None,
        title: "Tee".to_owned(),
        notes: String::new(),
        deadline: None,
        track: true,
        status: TaskStatus::Done,
        sort_order,
        created_at: "2026-01-01T00:00:00".to_owned(),
        initial_time_seconds: None,
    }
}

#[test]
fn the_status_handed_over_follows_the_tick() {
    assert_eq!(status_for(true), TaskStatus::Done);
    assert_eq!(status_for(false), TaskStatus::Todo);
}

#[test]
fn targets_of_moves_and_deadlines() {
    assert_eq!(project_target(""), None);
    assert_eq!(project_target("p1"), Some("p1".to_owned()));
    assert_eq!(deadline_target("   "), None);
    assert_eq!(deadline_target(" 2026-05-01 "), Some("2026-05-01".to_owned()));
    assert_eq!(scope_project(""), None);
    assert_eq!(scope_project("unfiled"), None);
    assert_eq!(scope_project("p9"), Some("p9".to_owned()));
}

#[test]
fn a_move_counts_only_when_parent_or_place_changed() {
    assert!(!moved(&task(Some("a"), 1), &task(Some("a"), 1)));
    assert!(moved(&task(Some("a"), 1), &task(Some("b"), 1)));
    assert!(moved(&task(Some("a"), 1), &task(None, 1)));
    assert!(moved(&task(Some("a"), 1), &task(Some("a"), 2)));
}

#[test]
fn notes_change_compares_with_what_is_stored() {
    assert!(!notes_change("n", "n  \n"));
    assert!(notes_change("n", "m"));
    assert!(notes_change("", " x"));
}

#[test]
fn status_log_entries_record_the_old_status() {
    let rec = status_entry("t", &Some(task(None, 1)), false).unwrap();
    assert_eq!(rec.kind, "set_status");
    assert_eq!(rec.summary, "Marked \"Tee\" not done");
    assert_eq!(rec.payload, "{\"id\":\"t\",\"old_status\":\"done\"}");
    assert!(status_entry("t", &None, true).is_none());
}

#[test]
fn reparent_entries_only_for_real_moves() {
    let map = Some(vec![("t".to_owned(), None)]);
    let title = Some("New".to_owned());
    let before = Some(task(Some("a"), 1));
    let rec = reparent_entry("t", &before, &Some(task(Some("b"), 4)), &map, &title).unwrap();
    assert_eq!(rec.kind, "reparent");
    assert_eq!(rec.summary, "Moved \"Tee\" under \"New\"");
    assert!(rec.payload.contains("\"old_parent_id\":\"a\""), "got {}", rec.payload);
    assert!(rec.payload.contains("\"old_sort_order\":1"), "got {}", rec.payload);
    assert!(reparent_entry("t", &before, &before.clone(), &map, &title).is_none());
    assert!(reparent_entry("t", &before, &None, &map, &title).is_none());
    assert!(reparent_entry("t", &before, &Some(task(None, 1)), &None, &title).is_none());
}
