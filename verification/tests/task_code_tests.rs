use deepcanvas_core::active_task::{marker_names, parse_active_marker};
use deepcanvas_core::error::DeepError;
use deepcanvas_core::task_code::{is_valid_task_code, normalize_task_codes, resolve_done_code};

#[test]
fn task_code_shapes() {
    assert!(is_valid_task_code("DC-142"));
    assert!(is_valid_task_code("ENG-7"));
    assert!(!is_valid_task_code("dc-142"));
    assert!(!is_valid_task_code("DC142"));
    assert!(!is_valid_task_code("DC-"));
    assert!(!is_valid_task_code("-142"));
    assert!(!is_valid_task_code("DC-14a"));
    assert!(!is_valid_task_code("DC-1-2"));
    assert!(!is_valid_task_code(""));
}

#[test]
fn pull_codes_are_upper_cased_then_checked() {
    let codes = vec!["dc-142".to_string(), "Eng-7".to_string()];
    let normalized = normalize_task_codes(&codes).unwrap();
    assert_eq!(normalized, vec!["DC-142".to_string(), "ENG-7".to_string()]);
}

#[test]
fn pull_rejects_the_first_invalid_code() {
    let codes = vec!["DC-1".to_string(), "oops".to_string(), "x".to_string()];
    match normalize_task_codes(&codes) {
        Err(DeepError::InvalidTaskCode(c)) => assert_eq!(c, "OOPS"),
        other => panic!("unexpected {:?}", other),
    }
}

#[test]
fn done_code_comes_from_argument_or_active_marker() {
    assert_eq!(resolve_done_code(Some("dc-156".into()), Some("DC-142".into())).unwrap(), "DC-156");
    assert_eq!(resolve_done_code(None, Some("dc-142".into())).unwrap(), "DC-142");
    assert!(matches!(resolve_done_code(None, None), Err(DeepError::NoActiveTask)));
    match resolve_done_code(Some("nope".into()), None) {
        Err(DeepError::InvalidTaskCode(c)) => assert_eq!(c, "NOPE"),
        other => panic!("unexpected {:?}", other),
    }
}

#[test]
fn active_marker_reads_back_what_pull_wrote() {
    assert_eq!(parse_active_marker("DC-142"), Some("DC-142".to_string()));
    assert_eq!(parse_active_marker("DC-3\n"), Some("DC-3".to_string()));
    assert_eq!(parse_active_marker("  \n"), None);
    assert_eq!(parse_active_marker(""), None);
}

#[test]
fn active_marker_is_cleared_only_for_the_completed_task() {
    assert!(marker_names(&Some("DC-142".to_string()), "DC-142"));
    assert!(!marker_names(&Some("DC-142".to_string()), "DC-156"));
    assert!(!marker_names(&None, "DC-142"));
}
