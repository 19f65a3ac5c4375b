use uhatt::domain::{
    parse_date_with_format, parse_duration, parse_quick_creation, EntrySource, TaskStatus,
};

#[test]
fn duration_parses_hours_minutes_and_combinations() {
    assert_eq!(parse_duration("2h"), Ok(7200));
    assert_eq!(parse_duration("45m"), Ok(2700));
    assert_eq!(parse_duration("2h30m"), Ok(9000));
    assert_eq!(parse_duration("2h 30m"), Ok(9000));
    assert_eq!(parse_duration("1.5h"), Ok(5400));
    assert_eq!(parse_duration(" 2H "), Ok(7200));
}

#[test]
fn duration_rejects_bare_numbers_and_garbage() {
    assert!(parse_duration("90").is_err());
    assert!(parse_duration("").is_err());
    assert!(parse_duration("abc").is_err());
    assert!(parse_duration("2h garbage").is_err());
}

#[test]
fn date_parses_per_selected_format() {
    assert_eq!(
        parse_date_with_format("2026-09-30", 0),
        Some("2026-09-30".to_owned())
    );
    assert_eq!(
        parse_date_with_format("09/30/2026", 1),
        Some("2026-09-30".to_owned())
    );
    assert_eq!(
        parse_date_with_format("30/09/2026", 2),
        Some("2026-09-30".to_owned())
    );
    assert_eq!(parse_date_with_format("30/09/2026", 1), None); // month 30 is invalid
    assert_eq!(parse_date_with_format("garbage", 0), None);
}

#[test]
fn quick_create_builds_correct_depths_with_pipe_format() {
    let text = "\
math homework||2025-09-30|boring maths
 exercise 1|||
 exercise 2|||
  exercise 2.1|||
  exercise 2.2|||
 exercise 3|||
english project|||essays n stuff";
    let lines = parse_quick_creation(text, ' ', 0);
    let depths: Vec<usize> = lines
        .iter()
        .map(|l| l.result.as_ref().unwrap().depth)
        .collect();
    assert_eq!(depths, vec![0, 1, 1, 2, 2, 1, 0]);
    assert_eq!(
        lines[0].result.as_ref().unwrap().deadline,
        Some("2025-09-30".to_owned())
    );
    assert_eq!(
        lines[0].result.as_ref().unwrap().description,
        "boring maths"
    );
    assert_eq!(lines[3].result.as_ref().unwrap().title, "exercise 2.1");
}

#[test]
fn quick_create_skips_blank_lines() {
    let text = "root|||\n\n child|||\n";
    let lines = parse_quick_creation(text, ' ', 0);
    assert_eq!(lines.len(), 2);
    assert_eq!(lines[0].line_no, 1);
    assert_eq!(lines[1].line_no, 3);
}

#[test]
fn quick_create_errors_on_a_jump_of_more_than_one_level() {
    let text = "root|||\n   child|||"; // 3 spaces, not 1
    let lines = parse_quick_creation(text, ' ', 0);
    assert!(lines[1].result.is_err());
}

#[test]
fn quick_create_errors_on_first_line_indented() {
    let text = " root|||";
    let lines = parse_quick_creation(text, ' ', 0);
    assert!(lines[0].result.is_err());
}

#[test]
fn quick_create_errors_on_mixed_whitespace() {
    let text = "root|||\n\tchild|||"; // configured for space, this line uses a tab
    let lines = parse_quick_creation(text, ' ', 0);
    assert!(lines[1].result.is_err());
}

#[test]
fn quick_create_errors_on_missing_title() {
    let text = "|||description only";
    let lines = parse_quick_creation(text, ' ', 0);
    assert!(lines[0].result.is_err());
}

#[test]
fn quick_create_na_marker_means_empty() {
    let text = "task|na|N/A|na";
    let lines = parse_quick_creation(text, ' ', 0);
    let t = lines[0].result.as_ref().unwrap();
    assert_eq!(t.initial_time_seconds, None);
    assert_eq!(t.deadline, None);
    assert_eq!(t.description, "");
}

#[test]
fn quick_create_supports_tab_indent() {
    let text = "root|||\n\tchild|||";
    let lines = parse_quick_creation(text, '\t', 0);
    assert!(lines[1].result.is_ok());
    assert_eq!(lines[1].result.as_ref().unwrap().depth, 1);
}

// --- Further cases -------------------------------------------------------------

#[test]
fn duration_error_messages_name_the_input() {
    assert_eq!(parse_duration(""), Err("empty duration".to_owned()));
    assert_eq!(parse_duration(" xh "), Err("bad hours in \"xh\"".to_owned()));
    assert_eq!(parse_duration("2h xm"), Err("bad minutes in \"2h xm\"".to_owned()));
    assert_eq!(
        parse_duration("2h garbage"),
        Err("unexpected trailing text in \"2h garbage\"".to_owned())
    );
    // A bare number is caught as trailing text before the missing unit.
    assert_eq!(
        parse_duration("90"),
        Err("unexpected trailing text in \"90\"".to_owned())
    );
}

#[test]
fn duration_rounds_fractional_hours_half_away_from_zero() {
    // 0.0001h = 0.36s -> 0; 0.00015h = 0.54s -> 1
    assert_eq!(parse_duration("0.0001h"), Ok(0));
    assert_eq!(parse_duration("0.00015h"), Ok(1));
    assert_eq!(parse_duration("-1.5h"), Ok(-5400));
    assert_eq!(parse_duration(".5h"), Ok(1800));
    assert_eq!(parse_duration("2.h"), Ok(7200));
    assert_eq!(parse_duration("1h-30m"), Ok(1800));
    assert_eq!(parse_duration("+3m"), Ok(180));
}

#[test]
fn date_formats_pad_and_reject_out_of_range_parts() {
    assert_eq!(
        parse_date_with_format(" 01/02/2026 ", 2),
        Some("2026-02-01".to_owned())
    );
    assert_eq!(parse_date_with_format("13/01/2026", 1), None);
    assert_eq!(parse_date_with_format("00/01/2026", 1), None);
    assert_eq!(parse_date_with_format("1/01/2026", 1), None);
    assert_eq!(parse_date_with_format("01/01/2026/1", 1), None);
    assert_eq!(parse_date_with_format("2026-9-30", 0), None);
}

#[test]
fn quick_create_reports_field_errors_with_their_messages() {
    let lines = parse_quick_creation("a|2x|na|na\nb|na|31.12.2026|na\nc|only", ' ', 0);
    assert_eq!(lines.len(), 3);
    assert_eq!(
        lines[0].result,
        Err("unexpected trailing text in \"2x\"".to_owned())
    );
    assert_eq!(lines[1].result, Err("bad deadline \"31.12.2026\"".to_owned()));
    assert_eq!(
        lines[2].result,
        Err("expected `title|timeinvested|deadline|description` (3 `|` separators)".to_owned())
    );
}

#[test]
fn quick_create_dedent_lands_on_an_ancestor() {
    let lines = parse_quick_creation("a|||\n b|||\n  c|||\n d|||\ne|3h|na|last field | keeps pipes", ' ', 0);
    let depths: Vec<usize> = lines
        .iter()
        .map(|l| l.result.as_ref().unwrap().depth)
        .collect();
    assert_eq!(depths, vec![0, 1, 2, 1, 0]);
    let last = lines[4].result.as_ref().unwrap();
    assert_eq!(last.initial_time_seconds, Some(10800));
    assert_eq!(last.description, "last field | keeps pipes");
}

#[test]
fn quick_create_mixed_indent_message() {
    let lines = parse_quick_creation("a|||\n\tb|||", ' ', 0);
    assert_eq!(
        lines[1].result,
        Err("line uses tabs, but indent is set to \" \"".to_owned())
    );
    let lines = parse_quick_creation("a|||\n b|||", '\t', 0);
    assert_eq!(
        lines[1].result,
        Err("line uses spaces, but indent is set to \"\t\"".to_owned())
    );
}

#[test]
fn statuses_and_sources_read_their_stored_forms() {
    assert_eq!(TaskStatus::from_db("done"), TaskStatus::Done);
    assert_eq!(TaskStatus::from_db("todo"), TaskStatus::Todo);
    assert_eq!(TaskStatus::from_db("whatever"), TaskStatus::Todo);
    assert_eq!(TaskStatus::Done.as_str(), "done");
    assert_eq!(TaskStatus::Todo.as_str(), "todo");
    assert_eq!(EntrySource::from_db("manual"), EntrySource::Manual);
    assert_eq!(EntrySource::from_db("timer"), EntrySource::Timer);
    assert_eq!(EntrySource::from_db("other"), EntrySource::Timer);
}

#[test]
fn date_fields_take_digits_only() {
    assert_eq!(parse_date_with_format("+1/05/2026", 1), None);
    assert_eq!(parse_date_with_format("05/+1/2026", 2), None);
    assert_eq!(parse_date_with_format("01/05/+026", 1), None);
    assert_eq!(parse_date_with_format("1/05/2026", 1), None);
    assert_eq!(
        parse_date_with_format("01/05/2026", 1),
        Some("2026-01-05".to_owned())
    );
}

#[test]
fn quick_create_has_one_entry_per_nonblank_line_in_order() {
    let r = parse_quick_creation("a|||\n\n   \nb|||\n\tc|||\n", '\t', 0);
    let nos: Vec<_> = r.iter().map(|l| l.line_no).collect();
    assert_eq!(nos, [1, 4, 5]);
}

#[test]
fn quick_create_depths_of_a_clean_outline_step_by_at_most_one() {
    let r = parse_quick_creation("a|||\n\tb|||\n\t\tc|||\n\td|||\ne|||", '\t', 0);
    let depths: Vec<_> = r.iter().map(|l| l.result.as_ref().unwrap().depth).collect();
    assert_eq!(depths, [0, 1, 2, 1, 0]);
}

#[test]
fn quick_create_refuses_indents_only_for_mixing_first_indent_or_jumps() {
    let mixed = parse_quick_creation("a|||\n \tb|||", '\t', 0);
    assert_eq!(mixed[1].result, Err("line uses spaces, but indent is set to \"\t\"".to_owned()));
    let first = parse_quick_creation("\ta|||", '\t', 0);
    assert_eq!(first[0].result, Err("first task can't be indented".to_owned()));
    let jump = parse_quick_creation("a|||\n\t\tb|||", '\t', 0);
    assert_eq!(
        jump[1].result,
        Err("indented more than one level deeper than the line above".to_owned())
    );
    let dedent = parse_quick_creation("a|||\n\tb|||\n\t\tc|||\nd|||", '\t', 0);
    assert!(dedent.iter().all(|l| l.result.is_ok()));
}

#[test]
fn surrounding_space_never_matters() {
    assert_eq!(parse_duration("  2h30m \t"), parse_duration("2h30m"));
    assert_eq!(parse_duration(" 2x "), parse_duration("2x"));
    assert_eq!(parse_date_with_format(" 09/30/2026\n", 1), parse_date_with_format("09/30/2026", 1));
    assert_eq!(parse_date_with_format(" 2026-9-30 ", 0), parse_date_with_format("2026-9-30", 0));
}

#[test]
fn an_iso_date_reads_back_unchanged() {
    let d = parse_date_with_format("  2026-09-30 ", 0).unwrap();
    assert_eq!(d, "2026-09-30");
    assert_eq!(parse_date_with_format(&d, 0), Some(d.clone()));
}

#[test]
fn duration_reads_without_regard_to_case() {
    assert_eq!(parse_duration("2H30M"), parse_duration("2h30m"));
    assert_eq!(parse_duration("2H30M"), Ok(9000));
    assert!(parse_duration("2X").is_err() && parse_duration("2x").is_err());
}
