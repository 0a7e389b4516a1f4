use deepcanvas_core::error::{DeepError, HintStyle};

fn all_errors() -> Vec<(DeepError, &'static str, &'static str)> {
    vec![
        (DeepError::Network("timeout".into()), "Network", "network error: timeout"),
        (DeepError::Keyring("locked".into()), "Keyring", "keyring error: locked"),
        (DeepError::Io("denied".into()), "Io", "io error: denied"),
        (DeepError::Serde("eof".into()), "Serde", "serialization error: eof"),
        (DeepError::TomlParse("bad".into()), "TomlParse", "toml parse error: bad"),
        (DeepError::NotAuthenticated, "NotAuthenticated", "not authenticated. Run `deep login` first."),
        (
            DeepError::Unauthorized,
            "Unauthorized",
            "authorization expired or revoked. Run `deep login` again.",
        ),
        (DeepError::SessionExpired, "SessionExpired", "session expired before approval"),
        (DeepError::SessionDenied, "SessionDenied", "session denied by user"),
        (DeepError::Api { status: 409, message: "already done".into() }, "Api", "api error 409: already done"),
        (DeepError::InvalidTaskCode("X".into()), "InvalidTaskCode", "invalid task code: X"),
        (
            DeepError::InvalidProjectFormat,
            "InvalidProjectFormat",
            "invalid project format: expected <org-slug>/<project-slug>",
        ),
        (
            DeepError::NoProjectBinding,
            "NoProjectBinding",
            "project binding not found. Run `deep init <org>/<project>` first or use --project flag.",
        ),
        (
            DeepError::AlreadyInitialized("/w/.deep/config.toml".into()),
            "AlreadyInitialized",
            ".deep/config.toml already exists at /w/.deep/config.toml. Remove it first to re-init.",
        ),
        (DeepError::Update("homebrew-managed binary".into()), "Update", "update error: homebrew-managed binary"),
        (
            DeepError::NoActiveTask,
            "NoActiveTask",
            "no active task. Pull a task first or pass a code: deep done <code>",
        ),
        (
            DeepError::HeadlessUnavailable,
            "HeadlessUnavailable",
            "this command requires an interactive terminal; --headless not supported",
        ),
    ]
}

#[test]
fn every_error_has_its_kind_and_message() {
    for (e, kind, message) in all_errors() {
        assert_eq!(e.kind(), kind);
        assert_eq!(e.message(), message);
    }
}

fn rendered(e: &DeepError) -> Vec<String> {
    e.hints().iter().map(|h| format!("{}{}{}", h.before, h.highlighted, h.after)).collect()
}

#[test]
fn hints_tell_what_to_do() {
    assert_eq!(rendered(&DeepError::NotAuthenticated), vec!["  Run: deep login"]);
    assert_eq!(rendered(&DeepError::Unauthorized), vec!["  Your token may be revoked.", "  Run: deep login"]);
    assert_eq!(
        rendered(&DeepError::NoProjectBinding),
        vec!["  Use: deep init <org>/<project>", "  Or:  deep tasks --project <org>/<project>"]
    );
    assert_eq!(
        rendered(&DeepError::AlreadyInitialized("p".into())),
        vec!["  Remove the file first: p"]
    );
    assert_eq!(
        rendered(&DeepError::SessionExpired),
        vec!["  Authorization code expired.", "  Run: deep login"]
    );
    assert_eq!(rendered(&DeepError::SessionDenied), vec!["  Authorization was denied in the browser."]);
    assert_eq!(
        rendered(&DeepError::InvalidTaskCode("dc142".into())),
        vec!["  Got: dc142. Expected format: DC-142, ENG-7"]
    );
    assert_eq!(
        rendered(&DeepError::NoActiveTask),
        vec!["  Pull a task first: deep pull <code>", "  Or pass a code:    deep done <code>"]
    );
    assert!(rendered(&DeepError::Network("x".into())).is_empty());
    let h = DeepError::NotAuthenticated.hints();
    assert_eq!(h[0].style, HintStyle::Dimmed);
    let h = DeepError::NoActiveTask.hints();
    assert_eq!(h[0].style, HintStyle::Cyan);
    let h = DeepError::SessionDenied.hints();
    assert_eq!(h[0].style, HintStyle::Plain);
}
