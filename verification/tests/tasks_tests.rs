use deepcanvas_core::error::DeepError;
use deepcanvas_core::tasks::{humanize_status, parse_task_choice, task_choice_prompt, task_rows, truncate};
use deepcanvas_core::types::{DocumentRef, TaskSummary};

#[test]
fn truncate_keeps_short_text_and_cuts_long_text() {
    assert_eq!(truncate("short", 60), "short");
    assert_eq!(truncate("abcdef", 6), "abcdef");
    assert_eq!(truncate("abcdefg", 6), "abcde…");
    assert_eq!(truncate("çğüşöı", 3), "çğ…");
    assert_eq!(truncate("", 0), "");
    let long = "x".repeat(100);
    assert_eq!(truncate(&long, 60).chars().count(), 60);
}

#[test]
fn humanize_status_words() {
    assert_eq!(humanize_status("in_progress"), "In Progress");
    assert_eq!(humanize_status("todo"), "Todo");
    assert_eq!(humanize_status("ready-for-review"), "Ready For Review");
    assert_eq!(humanize_status("done_"), "Done ");
    assert_eq!(humanize_status(""), "");
    assert_eq!(humanize_status("ünlü_iş"), "Ünlü Iş");
}

fn summary(code: &str, title: &str, status: &str, energy: Option<&str>, doc: Option<&str>) -> TaskSummary {
    TaskSummary {
        id: "i".into(),
        code: code.into(),
        title: title.into(),
        status: status.into(),
        energy: energy.map(|e| e.to_string()),
        priority: None,
        assignee: None,
        primary_document: doc.map(|d| DocumentRef { id: "d".into(), code: d.into(), title: "t".into() }),
        updated_at: "now".into(),
        parent_id: None,
        parent_code: None,
    }
}

#[test]
fn task_rows_fill_the_table() {
    let tasks = vec![
        summary("DC-1", "First", "in_progress", Some("high"), Some("PRD-1")),
        summary("DC-2", &"y".repeat(70), "todo", None, None),
    ];
    let rows = task_rows(&tasks);
    assert_eq!(rows[0], vec!["1", "DC-1", "First", "high", "In Progress", "PRD-1"]);
    let mut cut = "y".repeat(59);
    cut.push('…');
    assert_eq!(rows[1], vec!["2".to_string(), "DC-2".into(), cut, "—".into(), "Todo".into(), "—".into()]);
}

#[test]
fn task_choice_reading() {
    assert_eq!(task_choice_prompt(3), "Which task do you want to start? (1-3, Enter to skip)");
    assert_eq!(parse_task_choice("  ", 3).unwrap(), None);
    assert_eq!(parse_task_choice("2\n", 3).unwrap(), Some(1));
    assert_eq!(parse_task_choice("+3", 3).unwrap(), Some(2));
    match parse_task_choice("two", 3) {
        Err(DeepError::Io(m)) => assert_eq!(m, "not a number: two"),
        other => panic!("unexpected {:?}", other),
    }
    match parse_task_choice("0", 3) {
        Err(DeepError::Io(m)) => assert_eq!(m, "number out of range: 0 (expected 1-3)"),
        other => panic!("unexpected {:?}", other),
    }
    match parse_task_choice("4", 3) {
        Err(DeepError::Io(m)) => assert_eq!(m, "number out of range: 4 (expected 1-3)"),
        other => panic!("unexpected {:?}", other),
    }
}

#[test]
fn task_choice_reads_like_usize_parse() {
    assert_eq!(parse_task_choice("+2", 3).unwrap(), Some(1));
    match parse_task_choice("99999999999999999999999", 3) {
        Err(DeepError::Io(m)) => assert_eq!(m, "not a number: 99999999999999999999999"),
        other => panic!("unexpected {:?}", other),
    }
    match parse_task_choice("-1", 3) {
        Err(DeepError::Io(m)) => assert_eq!(m, "not a number: -1"),
        other => panic!("unexpected {:?}", other),
    }
    match parse_task_choice("+", 3) {
        Err(DeepError::Io(m)) => assert_eq!(m, "not a number: +"),
        other => panic!("unexpected {:?}", other),
    }
}
