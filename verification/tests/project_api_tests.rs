use deepcanvas_core::api::{
    poll_path, project_check_path, response_error, task_complete_path, task_context_path, tasks_path,
};
use deepcanvas_core::config::Config;
use deepcanvas_core::error::DeepError;
use deepcanvas_core::project::{project_labels, ProjectBinding};
use deepcanvas_core::types::ProjectListEntry;

fn binding(org: &str, proj: &str) -> ProjectBinding {
    ProjectBinding { organization_slug: org.to_string(), project_slug: proj.to_string() }
}

#[test]
fn from_flag_splits_at_first_slash() {
    let b = ProjectBinding::from_flag("datosfer/deepcanvas-platform").unwrap();
    assert_eq!(b.organization_slug, "datosfer");
    assert_eq!(b.project_slug, "deepcanvas-platform");
    let b = ProjectBinding::from_flag("a/b/c").unwrap();
    assert_eq!(b.organization_slug, "a");
    assert_eq!(b.project_slug, "b/c");
}

#[test]
fn from_flag_rejects_bad_formats() {
    for s in ["", "noslash", "/proj", "org/", "/"] {
        assert!(matches!(ProjectBinding::from_flag(s), Err(DeepError::InvalidProjectFormat)), "{}", s);
    }
}

#[test]
fn binding_round_trips_through_the_flag_form() {
    let b = binding("acme", "web");
    let flag = format!("{}/{}", b.organization_slug, b.project_slug);
    let back = ProjectBinding::from_flag(&flag).unwrap();
    assert_eq!(back.organization_slug, "acme");
    assert_eq!(back.project_slug, "web");
}

#[test]
fn to_toml_writes_the_project_table() {
    assert_eq!(
        binding("acme", "web").to_toml(),
        "[project]\norganization_slug = \"acme\"\nproject_slug = \"web\"\n"
    );
}

#[test]
fn project_labels_show_org_project_and_role() {
    let entries = vec![ProjectListEntry {
        organization_slug: "datosfer".into(),
        organization_name: "Datosfer".into(),
        project_slug: "dc".into(),
        project_name: "DeepCanvas Platform".into(),
        role: "manager".into(),
    }];
    assert_eq!(project_labels(&entries), vec!["Datosfer / DeepCanvas Platform  (manager)".to_string()]);
    let b = ProjectBinding::from_entry(&entries[0]);
    assert_eq!(b.organization_slug, "datosfer");
    assert_eq!(b.project_slug, "dc");
}

#[test]
fn api_urls_use_base_prefix_and_path() {
    let c = Config::with_overrides(None, None);
    assert_eq!(c.api_base, "https://api0910.deepcanvas.studio");
    assert_eq!(c.frontend_base, "https://app.deepcanvas.studio");
    assert_eq!(c.api_url("/cli/projects"), "https://api0910.deepcanvas.studio/api/v1/cli/projects");
    let local = Config::with_overrides(Some("http://localhost:8000".into()), Some("http://localhost:3000".into()));
    assert_eq!(local.api_url("/cli/auth"), "http://localhost:8000/api/v1/cli/auth");
    assert_eq!(local.frontend_base, "http://localhost:3000");
}

#[test]
fn request_paths_encode_the_slugs() {
    let b = binding("my org", "proj/ü");
    assert_eq!(tasks_path(&b), "/cli/tasks?org=my%20org&project=proj%2F%C3%BC");
    assert_eq!(project_check_path(&binding("a", "b")), "/cli/tasks?org=a&project=b&limit=1");
    assert_eq!(
        task_context_path("DC-142", &binding("acme", "web")),
        "/cli/tasks/DC-142/context?org=acme&project=web"
    );
    assert_eq!(
        task_complete_path("DC-142", &binding("a.b_c~d", "x-y")),
        "/cli/tasks/DC-142/complete?org=a.b_c~d&project=x-y"
    );
    assert_eq!(poll_path("tok123"), "/cli/auth/poll?device_token=tok123&wait=25");
}

#[test]
fn api_answers_map_to_errors() {
    assert!(response_error(200, None).is_none());
    assert!(response_error(204, Some("x".into())).is_none());
    assert!(matches!(response_error(401, Some("bad".into())), Some(DeepError::Unauthorized)));
    match response_error(404, Some("task not found".into())) {
        Some(DeepError::Api { status, message }) => {
            assert_eq!(status, 404);
            assert_eq!(message, "task not found");
        },
        other => panic!("unexpected {:?}", other),
    }
    match response_error(500, None) {
        Some(DeepError::Api { status, message }) => {
            assert_eq!(status, 500);
            assert_eq!(message, "unknown error");
        },
        other => panic!("unexpected {:?}", other),
    }
}
