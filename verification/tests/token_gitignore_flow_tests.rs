use deepcanvas_core::error::DeepError;
use deepcanvas_core::flow::{
    already_done_error, completion_cleanup, search_step, Cleanup, SearchStep, check_init_mode, is_already_done, is_homebrew_path, is_local_scope, poll_step, PollOutcome,
    PollStep,
};
use deepcanvas_core::gitignore::update_gitignore;
use deepcanvas_core::token::{
    keyring_kept, keyring_pointer, local_account, local_credential_text, lookup_step, parse_local_credential, LocalCredential, LookupStep,
    TokenSource,
};
use deepcanvas_core::types::PollResponse;

#[test]
fn local_credentials_pointer_round_trip() {
    let pointer = keyring_pointer("0b1e-uuid");
    assert_eq!(pointer, "keyring:0b1e-uuid");
    match parse_local_credential(&format!("{}\n", pointer)) {
        LocalCredential::KeyringPointer(id) => assert_eq!(id, "0b1e-uuid"),
        other => panic!("unexpected {:?}", other),
    }
    assert_eq!(local_account("0b1e-uuid"), "local:0b1e-uuid");
}

#[test]
fn local_credentials_legacy_token() {
    match parse_local_credential("  dc_tok_abc  \n") {
        LocalCredential::Token(t) => assert_eq!(t, "dc_tok_abc"),
        other => panic!("unexpected {:?}", other),
    }
}

#[test]
fn gitignore_new_file_gets_block() {
    assert_eq!(
        update_gitignore(None),
        Some("# Deep CLI task contexts\n.deep/*/\n.deep/active\n".to_string())
    );
}

#[test]
fn gitignore_appends_block_once() {
    let first = update_gitignore(Some("target/")).unwrap();
    assert_eq!(first, "target/\n\n# Deep CLI task contexts\n.deep/*/\n.deep/active\n");
    assert_eq!(update_gitignore(Some(&first)), None);
    let second = update_gitignore(Some("target/\n")).unwrap();
    assert_eq!(second, "target/\n\n# Deep CLI task contexts\n.deep/*/\n.deep/active\n");
    assert_eq!(update_gitignore(Some("a\n  .deep/*/  \r\nb")), None);
    assert_eq!(update_gitignore(Some("")), Some("\n\n# Deep CLI task contexts\n.deep/*/\n.deep/active\n".to_string()));
    let fresh = update_gitignore(None).unwrap();
    assert_eq!(update_gitignore(Some(&fresh)), None);
}

#[test]
fn poll_steps() {
    assert!(matches!(poll_step(PollOutcome::Answer(PollResponse::Pending)), PollStep::Wait));
    assert!(matches!(poll_step(PollOutcome::TimedOut), PollStep::Wait));
    match poll_step(PollOutcome::Answer(PollResponse::Approved { access_token: "tok".into() })) {
        PollStep::Authorized(t) => assert_eq!(t, "tok"),
        other => panic!("unexpected {:?}", other),
    }
    assert!(matches!(poll_step(PollOutcome::Answer(PollResponse::Denied)), PollStep::Stop(DeepError::SessionDenied)));
    assert!(matches!(poll_step(PollOutcome::Answer(PollResponse::Expired)), PollStep::Stop(DeepError::SessionExpired)));
    assert!(matches!(
        poll_step(PollOutcome::Failed(DeepError::Unauthorized)),
        PollStep::Stop(DeepError::Unauthorized)
    ));
}

#[test]
fn conflicts_on_completion() {
    let e = DeepError::Api { status: 409, message: "task already done".into() };
    assert!(is_already_done(&e));
    assert!(!is_already_done(&DeepError::Api { status: 404, message: "x".into() }));
    assert!(!is_already_done(&DeepError::NoActiveTask));
    match already_done_error("task already done", "DC-142") {
        DeepError::Api { status, message } => {
            assert_eq!(status, 409);
            assert_eq!(
                message,
                "task already done (DC-142 was already done — cleared local active marker; run `deep pull <code>` for your next task)"
            );
        },
        other => panic!("unexpected {:?}", other),
    }
}

#[test]
fn modes_and_paths() {
    assert!(matches!(check_init_mode(true, false), Err(DeepError::HeadlessUnavailable)));
    assert!(check_init_mode(true, true).is_ok());
    assert!(check_init_mode(false, false).is_ok());
    assert!(is_local_scope(Some(".")));
    assert!(!is_local_scope(Some("./")));
    assert!(!is_local_scope(None));
    assert!(is_homebrew_path("/usr/local/Cellar/deep/0.1.0/bin/deep"));
    assert!(is_homebrew_path("/opt/homebrew/bin/deep"));
    assert!(is_homebrew_path("/home/linuxbrew/.linuxbrew/bin/deep"));
    assert!(!is_homebrew_path("/usr/local/bin/deep"));
}

#[test]
fn keyring_kept_only_when_read_back_matches() {
    assert!(keyring_kept(true, Some("tok"), "tok"));
    assert!(!keyring_kept(true, Some("other"), "tok"));
    assert!(!keyring_kept(true, None, "tok"));
    assert!(!keyring_kept(false, Some("tok"), "tok"));
}

#[test]
fn token_lookup_order() {
    match lookup_step(TokenSource::ProjectLocal, Some(" local ".to_string())) {
        LookupStep::Found(t) => assert_eq!(t, " local "),
        other => panic!("unexpected {:?}", other),
    }
    match lookup_step(TokenSource::ProjectLocal, None) {
        LookupStep::Next(s) => assert_eq!(s, TokenSource::Keychain),
        other => panic!("unexpected {:?}", other),
    }
    match lookup_step(TokenSource::Keychain, None) {
        LookupStep::Next(s) => assert_eq!(s, TokenSource::DeviceFile),
        other => panic!("unexpected {:?}", other),
    }
    match lookup_step(TokenSource::DeviceFile, Some("tok\n".to_string())) {
        LookupStep::Found(t) => assert_eq!(t, "tok"),
        other => panic!("unexpected {:?}", other),
    }
    assert!(matches!(lookup_step(TokenSource::DeviceFile, None), LookupStep::NotFound));
}

#[test]
fn local_credential_text_reads_back() {
    let pointer = local_credential_text(true, "abc-123", "tok");
    assert_eq!(pointer, "keyring:abc-123");
    match parse_local_credential(&pointer) {
        LocalCredential::KeyringPointer(id) => assert_eq!(id, "abc-123"),
        other => panic!("unexpected {:?}", other),
    }
    let plain = local_credential_text(false, "abc-123", "tok");
    match parse_local_credential(&plain) {
        LocalCredential::Token(t) => assert_eq!(t, "tok"),
        other => panic!("unexpected {:?}", other),
    }
}

#[test]
fn completion_cleanup_by_outcome() {
    let active = Some("DC-1".to_string());
    assert_eq!(completion_cleanup(None, &active, "DC-1"), Cleanup { clear_marker: true, remove_state: true });
    assert_eq!(completion_cleanup(None, &active, "DC-2"), Cleanup { clear_marker: false, remove_state: true });
    assert_eq!(completion_cleanup(None, &None, "DC-2"), Cleanup { clear_marker: false, remove_state: true });
    let conflict = DeepError::Api { status: 409, message: "done".into() };
    assert_eq!(completion_cleanup(Some(&conflict), &None, "DC-2"), Cleanup { clear_marker: true, remove_state: true });
    let other = DeepError::Api { status: 500, message: "boom".into() };
    assert_eq!(completion_cleanup(Some(&other), &active, "DC-1"), Cleanup { clear_marker: false, remove_state: false });
    assert_eq!(
        completion_cleanup(Some(&DeepError::Unauthorized), &active, "DC-1"),
        Cleanup { clear_marker: false, remove_state: false }
    );
}

#[test]
fn nearest_directory_with_file_wins() {
    assert_eq!(search_step(true, true), SearchStep::Found);
    assert_eq!(search_step(true, false), SearchStep::Found);
    assert_eq!(search_step(false, true), SearchStep::Up);
    assert_eq!(search_step(false, false), SearchStep::NotFound);
}
