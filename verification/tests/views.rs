use rusqlite::Connection;
use uhatt::db::actions::list_actions;
use uhatt::db::{
    create_project, create_task, get_task, list_projects, list_task_tree, open_in_memory, DeadlineItem,
    HeatCell, HeatRange, SeriesTarget, TaskNode,
};
use uhatt::domain::{ProjectFilter, Task, TaskStatus};
use uhatt::views::actions_log::{actions_json_of, ActionsLog};
use uhatt::views::app::App;
use uhatt::views::calendar::{items_json_of, Calendar};
use uhatt::views::entries::EntriesModel;
use uhatt::views::graph::{period_stats, range_of, GraphModel};
use uhatt::views::projects::ProjectListModel;
use uhatt::views::quick_create::{indent_char, QuickCreate};
use uhatt::views::settings::{mode_of, parse_setting, Settings};
use uhatt::views::tasks::{compute_visible, parse_filter, TaskListModel};
use uhatt::views::timer::TimerController;
use uhatt::db::actions::ActionRow;
use uhatt::db::CountdownMode;

fn node(id: &str, depth: u32, has_children: bool) -> TaskNode {
    TaskNode {
        task: Task {
            id: id.to_owned(),
            parent_id: None,
            project_id: None,
            title: id.to_owned(),
            notes: String::new(),
            deadline: None,
            track: false,
            status: TaskStatus::Todo,
            sort_order: 1,
            created_at: "2026-01-01T00:00:00".to_owned(),
            initial_time_seconds: None,
        },
        depth,
        has_children,
        overdue: false,
        is_last_child: true,
        branch_more: vec![],
    }
}

fn outline() -> Vec<TaskNode> {
    vec![node("A", 0, true), node("A1", 1, true), node("A1a", 2, false), node("A2", 1, false), node("B", 0, false)]
}

fn seeded() -> (Connection, Task, Task) {
    let conn = open_in_memory().unwrap();
    let a = create_task(&conn, "A", None, None).unwrap();
    let a1 = create_task(&conn, "A1", Some(&a.id), None).unwrap();
    create_task(&conn, "A1a", Some(&a1.id), None).unwrap();
    create_task(&conn, "B", None, None).unwrap();
    (conn, a, a1)
}

fn titles(m: &TaskListModel) -> Vec<String> {
    (0..m.row_count() as i32).map(|r| m.node_at(r).unwrap().task.title.clone()).collect()
}

#[test]
fn collapsed_rows_hide_their_subtrees() {
    let tree = outline();
    assert_eq!(compute_visible(&tree, &vec![]), vec![0, 1, 2, 3, 4]);
    assert_eq!(compute_visible(&tree, &vec!["A1".to_owned()]), vec![0, 1, 3, 4]);
    assert_eq!(compute_visible(&tree, &vec!["A".to_owned()]), vec![0, 4]);
    assert_eq!(compute_visible(&tree, &vec!["A".to_owned(), "A1".to_owned()]), vec![0, 4]);
    // A leaf cannot fold anything.
    assert_eq!(compute_visible(&tree, &vec!["A1a".to_owned(), "B".to_owned()]), vec![0, 1, 2, 3, 4]);
}

#[test]
fn filter_values_name_scopes() {
    assert_eq!(parse_filter(""), ProjectFilter::All);
    assert_eq!(parse_filter("unfiled"), ProjectFilter::Unfiled);
    assert_eq!(parse_filter("p-1"), ProjectFilter::Only("p-1".to_owned()));
}

#[test]
fn setting_numbers_map_to_modes() {
    assert_eq!(range_of(0), HeatRange::Week);
    assert_eq!(range_of(1), HeatRange::Month);
    assert_eq!(range_of(2), HeatRange::Year);
    assert_eq!(range_of(-3), HeatRange::Year);
    assert_eq!(mode_of(0), CountdownMode::Off);
    assert_eq!(mode_of(1), CountdownMode::Optimal);
    assert_eq!(mode_of(2), CountdownMode::Days);
    assert_eq!(mode_of(3), CountdownMode::Weeks);
    assert_eq!(mode_of(4), CountdownMode::Months);
    assert_eq!(mode_of(5), CountdownMode::Hours);
    assert_eq!(mode_of(6), CountdownMode::Off);
    assert_eq!(indent_char(true), '\t');
    assert_eq!(indent_char(false), ' ');
    assert_eq!(parse_setting("3"), Some(3));
    assert_eq!(parse_setting("-1"), Some(-1));
    assert_eq!(parse_setting("x"), None);
    assert_eq!(parse_setting("99999999999"), None);
}

#[test]
fn task_list_collapses_selects_and_reloads() {
    let (conn, a, a1) = seeded();
    let mut m = TaskListModel::new(conn);
    assert_eq!(titles(&m), ["A", "A1", "A1a", "B"]);
    assert_eq!(m.id_at(1), Some(a1.id.clone()));
    assert_eq!(m.id_at(9), None);
    assert_eq!(m.id_at(-1), None);

    // Collapse A1, then A: descendants disappear, the rows themselves stay.
    m.toggle_expanded(1);
    assert_eq!(titles(&m), ["A", "A1", "B"]);
    assert!(!m.row_expanded(1));
    assert!(m.row_expanded(0));
    m.toggle_expanded(0);
    assert_eq!(titles(&m), ["A", "B"]);
    m.toggle_expanded(0);
    assert_eq!(titles(&m), ["A", "A1", "B"]);
    m.toggle_expanded(2); // B has no children: nothing changes
    assert_eq!(titles(&m), ["A", "A1", "B"]);

    // Selection: tick, untick, tick all, clear, leave selection mode.
    m.set_selection_mode(true);
    m.toggle_selected(0);
    assert_eq!(m.selected_count(), 1);
    assert!(m.row_selected(0));
    m.toggle_selected(0);
    assert_eq!(m.selected_count(), 0);
    m.select_all();
    assert_eq!(m.selected_count(), 3);
    m.clear_selection();
    assert_eq!(m.selected_count(), 0);
    m.toggle_selected(2);
    m.set_selection_mode(false);
    assert_eq!(m.selected_count(), 0);

    // A reload keeps the collapsed set and bumps the version.
    let v = m.data_version();
    m.refresh();
    assert_eq!(m.data_version(), v.wrapping_add(1));
    assert_eq!(titles(&m), ["A", "A1", "B"]);
    assert_eq!(m.branch_mask(1), "0");
    assert_eq!(m.branch_mask(7), "");
    let _ = a;
}

#[test]
fn task_list_actions_write_and_log() {
    let (conn, _a, _a1) = seeded();
    let mut m = TaskListModel::new(conn);
    m.add("   ");
    assert_eq!(m.row_count(), 4);
    m.add("  C  ");
    assert_eq!(titles(&m), ["A", "A1", "A1a", "B", "C"]);
    m.add_child(3, "B1");
    assert_eq!(titles(&m), ["A", "A1", "A1a", "B", "B1", "C"]);
    m.rename(5, "  see  ");
    assert_eq!(titles(&m), ["A", "A1", "A1a", "B", "B1", "see"]);
    m.set_done(5, true);
    // Done tasks leave the active view.
    assert_eq!(titles(&m), ["A", "A1", "A1a", "B", "B1"]);
    m.set_show_done(true);
    assert_eq!(m.row_count(), 6);
    m.set_deadline(0, "2000-01-01");
    assert!(m.node_at(0).unwrap().overdue);
    m.set_notes(0, "notes  ");
    assert_eq!(m.node_at(0).unwrap().task.notes, "notes");
    m.remove(3);
    assert_eq!(titles(&m), ["A", "A1", "A1a", "see"]);
    assert_eq!(m.time_invested_text(0), "0m  (incl. subtasks: 0m)");
    assert_eq!(m.time_invested_text(3), "0m");
    assert_eq!(m.initial_time_text(0), "");
    assert_eq!(m.count_finished(), 1);
    m.set_project_filter("finished");
    assert_eq!(titles(&m), ["see"]);
    assert_eq!(m.view_total_text(), "");
    m.add("ignored on the finished list");
    assert_eq!(titles(&m), ["see"]);
}

#[test]
fn graph_stats_and_target() {
    let cells = vec![
        HeatCell { date: "2026-01-01".to_owned(), seconds: 50, in_period: false },
        HeatCell { date: "2026-01-02".to_owned(), seconds: 30, in_period: true },
        HeatCell { date: "2026-01-03".to_owned(), seconds: 20, in_period: true },
    ];
    assert_eq!(period_stats(&cells), (30, 50));
    assert_eq!(period_stats(&vec![]), (0, 0));

    let conn = open_in_memory().unwrap();
    let mut g = GraphModel::new(conn);
    assert_eq!(g.range(), 2);
    assert_eq!(g.row_count(), 371);
    assert_eq!(g.target(), SeriesTarget::All);
    g.set_target_kind(1);
    assert_eq!(g.target(), SeriesTarget::All);
    g.set_target_id("p1");
    assert_eq!(g.target(), SeriesTarget::Project("p1".to_owned()));
    g.set_target_kind(2);
    assert_eq!(g.target(), SeriesTarget::TaskSubtree("p1".to_owned()));
    g.set_range(0);
    assert_eq!(g.row_count(), 7);
    assert!(g.at_latest());
    g.step(-1);
    assert!(!g.at_latest());
    g.set_range(9);
    assert_eq!(g.range(), 2);
    assert_eq!(g.total_text(), "0m");
    assert_eq!(g.hours_text(0), "0m");
}

#[test]
fn entries_list_adds_edits_and_totals() {
    let conn = open_in_memory().unwrap();
    let t = create_task(&conn, "task", None, None).unwrap();
    let mut e = EntriesModel::new(conn);
    e.add("2026-03-01T09:00", "2026-03-01T10:00");
    assert_eq!(e.row_count(), 0); // no task chosen yet
    e.set_task_id(&t.id);
    e.add("2026-03-01T09:00", "2026-03-01T10:30");
    e.add("2026-03-01T11:00", "2026-03-01T10:00"); // backwards: rejected
    assert_eq!(e.row_count(), 1);
    assert_eq!(e.total_text(), "1h 30m");
    assert_eq!(e.duration_text(0), "1h 30m");
    assert!(!e.running(0));
    e.update(0, "2026-03-01T09:00", "2026-03-01T09:00:45");
    assert_eq!(e.duration_text(0), "45s");
    assert_eq!(e.total_text(), "45s");
    e.remove(0);
    assert_eq!(e.row_count(), 0);
    assert_eq!(e.total_text(), "0m");
}

#[test]
fn calendar_and_log_json() {
    let items = vec![
        DeadlineItem {
            id: "t1".to_owned(),
            title: "Say \"hi\"".to_owned(),
            deadline: "2026-01-02".to_owned(),
            overdue: true,
            project: String::new(),
        },
        DeadlineItem {
            id: "t2".to_owned(),
            title: "b".to_owned(),
            deadline: "2026-01-03".to_owned(),
            overdue: false,
            project: "Work".to_owned(),
        },
    ];
    assert_eq!(
        items_json_of(&items),
        "[{\"id\":\"t1\",\"title\":\"Say \\\"hi\\\"\",\"date\":\"2026-01-02\",\"overdue\":true,\"project\":\"\"},\
         {\"id\":\"t2\",\"title\":\"b\",\"date\":\"2026-01-03\",\"overdue\":false,\"project\":\"Work\"}]"
    );
    assert_eq!(items_json_of(&vec![]), "[]");
    let rows = vec![ActionRow {
        id: 3,
        summary: "Renamed \"a\" to \"b\"".to_owned(),
        created_at: "2026-01-01T09:00:00".to_owned(),
        project_label: "Work".to_owned(),
    }];
    assert_eq!(
        actions_json_of(&rows),
        "[{\"id\":3,\"summary\":\"Renamed \\\"a\\\" to \\\"b\\\"\",\"createdAt\":\"2026-01-01T09:00:00\"}]"
    );

    let conn = open_in_memory().unwrap();
    let t = create_task(&conn, "dated", None, None).unwrap();
    uhatt::db::set_task_deadline(&conn, &t.id, Some("2000-01-01")).unwrap();
    let mut cal = Calendar::new(conn);
    assert!(cal.items_json().contains("\"overdue\":true"));
    cal.set_done(&t.id, true);
    assert_eq!(cal.items_json(), "[]");
    assert_eq!(cal.revision(), 1);
}

#[test]
fn actions_log_resets() {
    let conn = open_in_memory().unwrap();
    let t = create_task(&conn, "v1", None, None).unwrap();
    uhatt::db::rename_task(&conn, &t.id, "v2").unwrap();
    uhatt::db::actions::log_rename_task(&conn, &t.id, "v1", "v2").unwrap();
    let id = list_actions(&conn).unwrap()[0].id;
    let mut log = ActionsLog::new(conn);
    assert!(log.items_json().contains("Renamed \\\"v1\\\" to \\\"v2\\\""));
    log.reset(id);
    assert_eq!(log.items_json(), "[]");
    assert_eq!(log.revision(), 1);
}

#[test]
fn settings_store_the_countdown_mode() {
    let conn = open_in_memory().unwrap();
    let mut s = Settings::new(conn);
    assert_eq!(s.deadline_countdown(), 0);
    assert_eq!(s.countdown_text("2026-01-01"), "");
    s.set_deadline_countdown(9);
    assert_eq!(s.deadline_countdown(), 5);
    s.set_deadline_countdown(-4);
    assert_eq!(s.deadline_countdown(), 0);
    s.set_deadline_countdown(2);
    assert_eq!(s.countdown_text("not a date"), "");
}

#[test]
fn quick_create_previews_and_imports() {
    let conn = open_in_memory().unwrap();
    let q = QuickCreate::new(conn);
    assert_eq!(
        q.parse("root|||\n child|||\n\n   bad|||", false, 0),
        "[{\"lineNo\":1,\"ok\":true,\"depth\":0,\"title\":\"root\",\"error\":\"\"},\
         {\"lineNo\":2,\"ok\":true,\"depth\":1,\"title\":\"child\",\"error\":\"\"},\
         {\"lineNo\":4,\"ok\":false,\"depth\":0,\"title\":\"\",\"error\":\"indented more than one level deeper than the line above\"}]"
    );
    assert_eq!(q.create("  ", "a|||", false, 0), "{\"error\":\"Project name is required\",\"ok\":false}");
    assert_eq!(
        q.create("P", "\n  \n", false, 0),
        "{\"error\":\"Nothing to create - the text area is empty\",\"ok\":false}"
    );
    assert_eq!(
        q.create("P", "a|||\n|||x", false, 0),
        "{\"error\":\"Line 2: title is required\",\"ok\":false}"
    );
    let ok = q.create("Plan", "root|1h|2026-01-02|desc\n\tkid|||", true, 0);
    assert!(ok.starts_with("{\"ok\":true,\"projectId\":\""), "got {ok}");
    assert!(ok.ends_with(",\"taskCount\":2}"), "got {ok}");
}

#[test]
fn quick_create_import_builds_the_tree_and_logs_it() {
    let conn = open_in_memory().unwrap();
    let tasks = uhatt::domain::parse_quick_creation("root|1h|2026-01-02|desc\n\tkid|||\nsecond|||", '\t', 0)
        .into_iter()
        .map(|l| l.result.unwrap())
        .collect::<Vec<_>>();
    let outcome = uhatt::db::actions::import_quick_creation(&conn, "Plan", &tasks).unwrap();
    assert_eq!(outcome.task_count, 3);
    let tree = list_task_tree(&conn, &ProjectFilter::Only(outcome.project_id.clone()), true).unwrap();
    let shape: Vec<_> = tree.iter().map(|n| (n.task.title.as_str(), n.depth)).collect();
    assert_eq!(shape, [("root", 0), ("kid", 1), ("second", 0)]);
    let root = get_task(&conn, &tree[0].task.id).unwrap().unwrap();
    assert_eq!(root.deadline.as_deref(), Some("2026-01-02"));
    assert_eq!(root.initial_time_seconds, Some(3600));
    assert_eq!(root.notes, "desc");
    let log = list_actions(&conn).unwrap();
    assert_eq!(log.len(), 1);
    assert_eq!(log[0].summary, "Created project \"Plan\" with 3 tasks");
    uhatt::db::actions::revert_action(&conn, log[0].id).unwrap();
    assert!(list_projects(&conn).unwrap().is_empty());
    assert!(list_task_tree(&conn, &ProjectFilter::All, true).unwrap().is_empty());
}

#[test]
fn timer_sessions_pause_resume_and_stop() {
    let conn = open_in_memory().unwrap();
    let t = create_task(&conn, "work", None, None).unwrap();
    let mut timer = TimerController::new(conn);
    assert_eq!(timer.running_task_id(), "");
    timer.pause(); // nothing running: no-op
    assert!(!timer.paused());
    timer.start("");
    assert_eq!(timer.running_task_id(), "");
    timer.start(&t.id);
    assert_eq!(timer.running_task_id(), t.id);
    assert!(!timer.running_since().is_empty());
    timer.pause();
    assert!(timer.paused());
    assert_eq!(timer.running_since(), "");
    assert_eq!(timer.running_task_id(), t.id);
    timer.resume();
    assert!(!timer.paused());
    assert!(!timer.running_since().is_empty());
    timer.stop();
    assert_eq!(timer.running_task_id(), "");
    assert_eq!(timer.base_seconds(), 0);
    assert!(!timer.recovered());
}

#[test]
fn projects_list_adds_renames_and_removes() {
    let conn = open_in_memory().unwrap();
    create_project(&conn, "Work").unwrap();
    let mut p = ProjectListModel::new(conn);
    assert_eq!(p.row_count(), 1);
    assert_eq!(p.add("  "), "");
    let id = p.add(" Home ");
    assert!(!id.is_empty());
    assert_eq!(p.row_count(), 2);
    assert_eq!(p.id_at(0), Some(id.clone()));
    p.rename(0, "House");
    assert_eq!(p.node_at(0).unwrap().project.name, "House");
    p.toggle_expanded(0);
    assert_eq!(p.row_count(), 2);
    p.remove(0);
    assert_eq!(p.row_count(), 1);
    assert_eq!(p.node_at(0).unwrap().project.name, "Work");
    assert!(p.node_at(1).is_none());
}

#[test]
fn app_greets() {
    let app = App::new("0.1.0");
    assert_eq!(app.version(), "0.1.0");
    assert_eq!(app.greeting("Ann"), "Hello, Ann. uhatt is wired up.");
}
