use deepcanvas_core::context::{doc_file_name, document_files, format_task_md};
use deepcanvas_core::types::{AcceptanceCriterion, DocumentFull, TaskDetail, TaskDocuments, UserRef};

fn doc(code: &str, title: &str, content: &str) -> DocumentFull {
    DocumentFull {
        id: format!("id-{}", code),
        code: code.into(),
        doc_type: "prd".into(),
        title: title.into(),
        content_markdown: content.into(),
        version: 1,
        updated_at: "2025-01-01".into(),
    }
}

fn task() -> TaskDetail {
    TaskDetail {
        id: "t1".into(),
        code: "DC-142".into(),
        title: "Google OAuth callback handler".into(),
        description: Some("  Handle the callback.\n\n".into()),
        status: "in_progress".into(),
        energy: Some("high".into()),
        priority: Some("p1".into()),
        acceptance_criteria: vec![
            AcceptanceCriterion { id: "a".into(), text: "Redirects back".into(), is_done: true },
            AcceptanceCriterion { id: "b".into(), text: "Stores session".into(), is_done: false },
        ],
        assignee: Some(UserRef { id: "u".into(), email: "ali@example.com".into(), name: Some("Ali".into()) }),
        reporter: None,
        created_at: "2025-01-01".into(),
        updated_at: "2025-01-02".into(),
        parent_id: None,
        parent_code: None,
    }
}

#[test]
fn task_md_has_all_sections() {
    let docs = TaskDocuments {
        primary: Some(doc("AUTH-PRD", "Auth PRD", "# PRD")),
        related: vec![doc("API-1", "API notes", "notes")],
    };
    let md = format_task_md(&task(), &docs);
    let expected = "# DC-142: Google OAuth callback handler\n\n\
**Status:** in_progress  \n\
**Energy:** high  \n\
**Priority:** p1  \n\
**Assignee:** Ali <ali@example.com>  \n\
\n\
## Description\n\nHandle the callback.\n\n\
## Acceptance Criteria\n\n\
- [x] Redirects back\n\
- [ ] Stores session\n\
\n\
## Linked Documents\n\n\
- [AUTH-PRD](./AUTH-PRD.md) — Auth PRD (primary)\n\
- [API-1](./API-1.md) — API notes\n";
    assert_eq!(md, expected);
}

#[test]
fn task_md_minimal_task() {
    let mut t = task();
    t.description = None;
    t.energy = None;
    t.priority = None;
    t.assignee = Some(UserRef { id: "u".into(), email: "x@y.z".into(), name: None });
    t.acceptance_criteria = vec![];
    let docs = TaskDocuments { primary: None, related: vec![] };
    assert_eq!(
        format_task_md(&t, &docs),
        "# DC-142: Google OAuth callback handler\n\n**Status:** in_progress  \n**Assignee:** x@y.z <x@y.z>  \n\n"
    );
}

#[test]
fn document_files_primary_first() {
    let docs = TaskDocuments {
        primary: Some(doc("P", "Primary", "pp")),
        related: vec![doc("R1", "One", "r1"), doc("R2", "Two", "r2")],
    };
    let files = document_files(&docs);
    assert_eq!(
        files,
        vec![
            ("P.md".to_string(), "pp".to_string()),
            ("R1.md".to_string(), "r1".to_string()),
            ("R2.md".to_string(), "r2".to_string()),
        ]
    );
    let none = TaskDocuments { primary: None, related: vec![doc("R", "r", "c")] };
    assert_eq!(document_files(&none), vec![("R.md".to_string(), "c".to_string())]);
    assert_eq!(doc_file_name("AUTH-PRD"), "AUTH-PRD.md");
}
