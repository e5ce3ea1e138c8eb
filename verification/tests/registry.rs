//! The session registry.

use nexa::protocol::SessionInfo;
use nexa::registry::{
    canonical_workspace, list_sessions, merge_known, session_id_for, session_id_from,
    unique_session_id, validate_session_id, IdAttempts, OpenAction, OpenOutcome, OpenRequest, Opening,
    PersistedSession, RegistryError, SessionRegistry, WorkspaceOutcome, EVENT_LOG_FILE,
    MAX_ID_ATTEMPTS, METADATA_FILE,
};
use nexa::session::SessionError;

fn meta(id: &str, workspace: &str, created: u64, opened: u64) -> PersistedSession {
    PersistedSession {
        id: id.to_owned(),
        workspace: workspace.to_owned(),
        created_at_ms: created,
        last_opened_ms: opened,
    }
}

/// Opens a session on a disk that holds one metadata file or none.
fn open(
    registry: &mut SessionRegistry,
    request: OpenRequest,
    stored: Option<PersistedSession>,
    now: u64,
) -> Result<SessionInfo, RegistryError> {
    let (mut job, mut action) = match registry.begin(request, now) {
        Opening::Refused(error) => return Err(error),
        Opening::AlreadyOpen(info) => return Ok(info),
        Opening::Begun(job, action) => (job, Some(action)),
    };
    while let Some(next) = action {
        let outcome = match next {
            OpenAction::ReadMetadata(_) => match &stored {
                Some(meta) => OpenOutcome::Metadata(meta.clone()),
                None => OpenOutcome::Missing,
            },
            OpenAction::ResolveWorkspace(workspace) => {
                OpenOutcome::Workspace(WorkspaceOutcome::Directory(workspace))
            }
            OpenAction::CreateDirectory(_)
            | OpenAction::SaveMetadata(_)
            | OpenAction::CreateAgent(_)
            | OpenAction::OpenLog(_) => OpenOutcome::Done,
        };
        action = job.step(outcome, now);
    }
    registry.conclude(job)
}

#[test]
fn every_created_session_gets_a_distinct_id() {
    let first = unique_session_id("/workspace").unwrap();
    let second = unique_session_id("/workspace").unwrap();
    assert_ne!(first, second);
    for id in [&first, &second] {
        assert!(id.starts_with("session-"), "{id}");
        assert!(validate_session_id(id).is_ok(), "{id}");
    }
    let fingerprint = |id: &str| id["session-".len()..].split('-').next().unwrap().to_owned();
    assert_eq!(fingerprint(&first), fingerprint(&second));
    assert_ne!(
        fingerprint(&first),
        fingerprint(&unique_session_id("/other").unwrap())
    );
}

#[test]
fn ids_are_made_of_the_workspace_and_random_bytes() {
    let id = session_id_for("abc", &[0xde, 0xad, 0xbe, 0xef]);
    // The SHA-256 digest of "abc" begins with ba7816bf.
    assert!(id.starts_with("session-ba7816bf"), "{id}");
    assert!(id.ends_with("-deadbeef"), "{id}");
}

#[test]
fn creates_and_lists_multiple_sessions_per_workspace() {
    let mut registry = SessionRegistry::new();
    let first = meta("session-a-1", "/w", 10, 10);
    let second = meta("session-a-2", "/w", 20, 20);
    for (session, now) in [(&first, 10), (&second, 20)] {
        let info = open(
            &mut registry,
            OpenRequest::Bind {
                meta: session.clone(),
                allow_create: true,
            },
            None,
            now,
        )
        .unwrap();
        assert_eq!(info.id, session.id);
    }
    let listed = list_sessions("/w", &Vec::new(), &registry.in_memory());
    assert_eq!(listed.len(), 2);
    assert_eq!(listed[0].id, second.id);
    assert_eq!(listed[1].id, first.id);
}

#[test]
fn workspaces_keep_independent_session_lists() {
    let on_disk = vec![
        meta("session-a-1", "/a", 1, 1),
        meta("session-b-1", "/b", 2, 2),
        meta("session-a-2", "/a", 3, 3),
    ];
    assert_eq!(list_sessions("/a", &on_disk, &Vec::new()).len(), 2);
    let listed = list_sessions("/b", &on_disk, &Vec::new());
    assert_eq!(listed.len(), 1);
    assert_eq!(listed[0].id, "session-b-1");
}

#[test]
fn rejects_a_session_id_that_could_escape_the_sessions_directory() {
    let mut registry = SessionRegistry::new();
    assert!(matches!(
        open(
            &mut registry,
            OpenRequest::Existing("../../etc".to_owned()),
            None,
            1
        ),
        Err(RegistryError::InvalidSessionId(_))
    ));
    for id in ["", "a", "session-", "session-a/b", "session-a.b", "session-g", ".."] {
        assert!(validate_session_id(id).is_err(), "{id}");
    }
}

#[test]
fn an_unknown_session_is_not_found() {
    let mut registry = SessionRegistry::new();
    let error = open(
        &mut registry,
        OpenRequest::Existing("session-a-1".to_owned()),
        None,
        1,
    )
    .unwrap_err();
    assert!(error.is_not_found());
    assert!(!error.is_invalid_request());
}

#[test]
fn an_open_session_is_reused() {
    let mut registry = SessionRegistry::new();
    let stored = meta("session-a-1", "/w", 1, 1);
    let info = open(
        &mut registry,
        OpenRequest::Existing("session-a-1".to_owned()),
        Some(stored),
        5,
    )
    .unwrap();
    assert_eq!(info.workspace, "/w");
    assert!(matches!(
        registry.begin(OpenRequest::Existing("session-a-1".to_owned()), 6),
        Opening::AlreadyOpen(_)
    ));
}

#[test]
fn metadata_of_another_session_is_refused() {
    let mut registry = SessionRegistry::new();
    let error = open(
        &mut registry,
        OpenRequest::Existing("session-a-1".to_owned()),
        Some(meta("session-a-2", "/w", 1, 1)),
        5,
    )
    .unwrap_err();
    assert!(matches!(error, RegistryError::InvalidMetadata(_)));
    assert!(registry.in_memory().is_empty());
}

#[test]
fn the_latest_copy_of_a_session_counts() {
    let merged = merge_known(vec![
        meta("a", "/w", 1, 5),
        meta("b", "/w", 1, 2),
        meta("a", "/w", 1, 9),
    ]);
    assert_eq!(merged.len(), 2);
    assert!(merged
        .iter()
        .any(|session| session.id == "a" && session.last_opened_ms == 9));
}

#[test]
fn workspaces_have_to_be_readable_directories() {
    assert_eq!(
        canonical_workspace(WorkspaceOutcome::Directory("/w".to_owned())).unwrap(),
        "/w"
    );
    assert!(matches!(
        canonical_workspace(WorkspaceOutcome::Failed("gone".to_owned())),
        Err(RegistryError::Workspace(error)) if error == "gone"
    ));
    for outcome in [WorkspaceOutcome::NotDirectory, WorkspaceOutcome::NotUtf8] {
        let error = canonical_workspace(outcome).unwrap_err();
        assert!(error.is_invalid_request(), "{}", error.message());
    }
}

#[test]
fn ids_are_drawn_a_few_times_only() {
    let mut attempts = IdAttempts::new();
    for _ in 0..MAX_ID_ATTEMPTS {
        assert!(attempts.next("/w").is_ok());
    }
    assert!(attempts.next("/w").is_err());
}

#[test]
fn registry_errors_have_messages() {
    for error in [
        RegistryError::Io("x".to_owned()),
        RegistryError::Workspace("x".to_owned()),
        RegistryError::InvalidWorkspace("x".to_owned()),
        RegistryError::InvalidSessionId("x".to_owned()),
        RegistryError::NotFound("x".to_owned()),
        RegistryError::InvalidMetadata("x".to_owned()),
        RegistryError::Agent("x".to_owned()),
        RegistryError::Session(SessionError::Io("x".to_owned())),
    ] {
        assert!(error.message().contains('x'), "{}", error.message());
    }
    assert_eq!(METADATA_FILE, "session.json");
    assert_eq!(EVENT_LOG_FILE, "events.ndjson");
}

#[test]
fn ids_take_eight_bytes_of_the_digest() {
    let digest = [0, 1, 2, 3, 4, 5, 6, 7, 8, 9];
    let id = session_id_from(&digest, &[0xff, 0x10, 0x0a, 0x00]);
    assert_eq!(id, "session-0001020304050607-ff100a00");
    assert!(validate_session_id(&id).is_ok());
}
