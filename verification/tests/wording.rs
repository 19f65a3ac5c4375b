use uhatt::db::{countdown_words, CountdownMode};
use uhatt::format::{and_then, decimal, human_duration, human_hm, human_hours, human_total, json_str, plural};
use uhatt::tree::{annotate, is_preorder, last_flags};

#[test]
fn plural_singles_out_one() {
    assert_eq!(plural(1, "day"), "1 day");
    assert_eq!(plural(3, "day"), "3 days");
    assert_eq!(plural(0, "hour"), "0 hours");
    assert_eq!(plural(-2, "week"), "-2 weeks");
}

#[test]
fn and_then_drops_a_zero_tail() {
    assert_eq!(and_then("2 weeks".to_owned(), 0, "day"), "2 weeks");
    assert_eq!(and_then("1 week".to_owned(), 1, "day"), "1 week and 1 day");
    assert_eq!(and_then("1 month".to_owned(), 3, "day"), "1 month and 3 days");
}

#[test]
fn decimal_keeps_whole_counts_and_rounds_fractions() {
    assert_eq!(decimal(5, 7, "week"), "0.71 weeks");
    assert_eq!(decimal(21, 7, "week"), "3 weeks");
    assert_eq!(decimal(7, 7, "week"), "1 week");
    assert_eq!(decimal(3, 2, "week"), "1.5 weeks");
    assert_eq!(decimal(1, 4, "month"), "0.25 months");
    assert_eq!(decimal(1, 3, "month"), "0.33 months");
    assert_eq!(decimal(2, 3, "month"), "0.67 months");
}

#[test]
fn hour_minute_wordings() {
    assert_eq!(human_hm(0), "0m");
    assert_eq!(human_hm(-5), "0m");
    assert_eq!(human_hm(2700), "45m");
    assert_eq!(human_hm(6 * 3600 + 20 * 60), "6h 20m");
    assert_eq!(human_hm(3600 + 5 * 60), "1h 05m");

    assert_eq!(human_duration(0), "-");
    assert_eq!(human_duration(12), "12s");
    assert_eq!(human_duration(125), "2m");
    assert_eq!(human_duration(3725), "1h 02m");

    assert_eq!(human_total(0), "0m");
    assert_eq!(human_total(40), "40s");
    assert_eq!(human_total(7500), "2h 05m");
    assert_eq!(human_hours(12), "12s");
    assert_eq!(human_hours(2 * 3600 + 5 * 60), "2h 05m");
}

#[test]
fn json_strings_escape_quotes_backslashes_and_controls() {
    assert_eq!(json_str("plain"), "\"plain\"");
    assert_eq!(json_str("a\"b\\c"), "\"a\\\"b\\\\c\"");
    assert_eq!(json_str("l1\nl2\tx\r"), "\"l1\\nl2\\tx\\r\"");
    assert_eq!(json_str("\u{1}\u{1f}"), "\"\\u0001\\u001f\"");
    assert_eq!(json_str("café/é"), "\"café/é\"");
}

#[test]
fn countdown_words_per_mode() {
    assert_eq!(countdown_words(CountdownMode::Off, 5, 0, 0, 0), "");
    assert_eq!(countdown_words(CountdownMode::Days, 0, 0, 0, 0), "today");
    assert_eq!(countdown_words(CountdownMode::Days, 1, 0, 0, 0), "tomorrow");
    assert_eq!(countdown_words(CountdownMode::Days, 5, 0, 0, 0), "5 days");
    assert_eq!(countdown_words(CountdownMode::Days, -1, 0, 0, 0), "overdue by 1 day");
    assert_eq!(countdown_words(CountdownMode::Hours, 2, 0, 0, 0), "48 hours");
    assert_eq!(countdown_words(CountdownMode::Hours, -2, 0, 0, 0), "overdue by 48 hours");
    assert_eq!(countdown_words(CountdownMode::Weeks, 5, 0, 0, 0), "0.71 weeks");
    assert_eq!(countdown_words(CountdownMode::Weeks, 14, 0, 0, 0), "2 weeks");
    assert_eq!(countdown_words(CountdownMode::Months, 10, 0, 10, 30), "0.33 months");
    assert_eq!(countdown_words(CountdownMode::Months, 31, 1, 0, 30), "1 month");
    assert_eq!(countdown_words(CountdownMode::Months, 45, 1, 15, 30), "1.5 months");
    assert_eq!(countdown_words(CountdownMode::Optimal, 1, 0, 0, 0), "tomorrow");
    assert_eq!(countdown_words(CountdownMode::Optimal, 3, 0, 0, 0), "3 days");
    assert_eq!(countdown_words(CountdownMode::Optimal, 8, 0, 0, 0), "1 week and 1 day");
    assert_eq!(countdown_words(CountdownMode::Optimal, 14, 0, 0, 0), "2 weeks");
    assert_eq!(countdown_words(CountdownMode::Optimal, 34, 1, 3, 0), "1 month and 3 days");
    assert_eq!(countdown_words(CountdownMode::Optimal, 61, 2, 0, 0), "2 months");
}

#[test]
fn preorder_check_and_guides() {
    assert!(is_preorder(&vec![]));
    assert!(is_preorder(&vec![0, 1, 2, 1, 0]));
    assert!(!is_preorder(&vec![1]));
    assert!(!is_preorder(&vec![0, 2]));

    let d = vec![0, 1, 2, 1, 0];
    assert_eq!(last_flags(&d), vec![false, false, true, true, true]);
    let (last, guides) = annotate(&d);
    assert_eq!(last, vec![false, false, true, true, true]);
    assert_eq!(
        guides,
        vec![vec![], vec![true], vec![true, false], vec![false], vec![]]
    );
}
