use uwiki_cli::client::{
    interpret_submit_response, FetchError, RemoteDocument, SubmitResponse,
};
use uwiki_cli::default_address;
use uwiki_cli::format::ParseError;
use uwiki_cli::session::{
    Session, SessionAction, SessionError, SessionEvent, SessionState,
};

fn doc(title: &str, body: &str, version: i32) -> RemoteDocument {
    RemoteDocument {
        title: Some(title.as_bytes().to_vec()),
        body: Some(body.as_bytes().to_vec()),
        version,
    }
}

#[test]
fn default_address_is_local() {
    assert_eq!(default_address(), "http://localhost:1181");
}

#[test]
fn new_session_asks_for_the_fetch() {
    let (session, action) = Session::new(b"home".to_vec(), b"tok".to_vec());
    assert!(matches!(session.state, SessionState::Fetching));
    match action {
        SessionAction::Fetch {
            slug,
            credential_token,
        } => {
            assert_eq!(slug, b"home".to_vec());
            assert_eq!(credential_token, b"tok".to_vec());
        }
        other => panic!("expected a fetch, got {:?}", other),
    }
}

#[test]
fn happy_path() {
    let (session, _) = Session::new(b"home".to_vec(), b"tok".to_vec());

    let (session, action) = session.step(SessionEvent::Fetched {
        response: Ok(doc("Home", "Hi", 3)),
    });
    match &action {
        SessionAction::WriteFile { text } => {
            assert_eq!(text, &b"---\ntitle: Home\n---\nHi".to_vec())
        }
        other => panic!("expected a file write, got {:?}", other),
    }

    let (session, action) = session.step(SessionEvent::Written { ok: true });
    assert!(matches!(action, SessionAction::RunEditor));

    let (session, action) = session.step(SessionEvent::EditorExited { accepted: true });
    assert!(matches!(action, SessionAction::ReadFile));

    // The human edited the body.
    let (session, action) = session.step(SessionEvent::ReadBack {
        contents: Some(b"---\ntitle: Home\n---\nHi there".to_vec()),
    });
    match &action {
        SessionAction::Submit { submission } => {
            assert_eq!(submission.credential_token, b"tok".to_vec());
            assert_eq!(submission.slug, b"home".to_vec());
            assert_eq!(submission.title, b"Home".to_vec());
            assert_eq!(submission.body, b"Hi there".to_vec());
            assert_eq!(submission.previous_version, 3);
        }
        other => panic!("expected a submission, got {:?}", other),
    }

    let outcome = interpret_submit_response(SubmitResponse {
        success: true,
        message: b"saved".to_vec(),
        new_version: Some(4),
    })
    .unwrap();
    let (session, action) = session.step(SessionEvent::Submitted {
        response: Ok(outcome),
    });
    assert!(matches!(action, SessionAction::Stop));
    match session.state {
        SessionState::Done { message } => assert_eq!(message, b"saved".to_vec()),
        other => panic!("expected the session to be done, got {:?}", other),
    }
}

#[test]
fn editor_rejection_aborts_and_keeps_the_file() {
    let (session, _) = Session::new(b"home".to_vec(), b"tok".to_vec());
    let (session, _) = session.step(SessionEvent::Fetched {
        response: Ok(doc("Home", "Hi", 3)),
    });
    let (session, _) = session.step(SessionEvent::Written { ok: true });
    let (session, action) = session.step(SessionEvent::EditorExited { accepted: false });
    assert!(matches!(action, SessionAction::KeepFile));
    assert!(matches!(session.state, SessionState::Aborted));

    // Whatever still arrives, the session stays aborted and asks for
    // nothing — in particular no submission.
    let (session, action) = session.step(SessionEvent::ReadBack {
        contents: Some(b"---\ntitle: Home\n---\nHi".to_vec()),
    });
    assert!(matches!(action, SessionAction::Stop));
    assert!(matches!(session.state, SessionState::Aborted));
}

#[test]
fn stale_version_rejection_fails_the_session() {
    let (session, _) = Session::new(b"home".to_vec(), b"tok".to_vec());
    let (session, _) = session.step(SessionEvent::Fetched {
        response: Ok(doc("Home", "Hi", 5)),
    });
    let (session, _) = session.step(SessionEvent::Written { ok: true });
    let (session, _) = session.step(SessionEvent::EditorExited { accepted: true });
    let (session, action) = session.step(SessionEvent::ReadBack {
        contents: Some(b"---\ntitle: Home\n---\nedited".to_vec()),
    });
    match &action {
        SessionAction::Submit { submission } => assert_eq!(submission.previous_version, 5),
        other => panic!("expected a submission, got {:?}", other),
    }

    // The server moved on to version 7 meanwhile and rejects the guard.
    let response = interpret_submit_response(SubmitResponse {
        success: false,
        message: b"version conflict".to_vec(),
        new_version: None,
    });
    let (session, action) = session.step(SessionEvent::Submitted { response });
    assert!(matches!(action, SessionAction::Stop));
    match session.state {
        SessionState::Failed {
            error: SessionError::Submit { error },
        } => match error {
            uwiki_cli::client::SubmitError::Rejected { message } => {
                assert_eq!(message, b"version conflict".to_vec())
            }
            other => panic!("expected a rejection, got {:?}", other),
        },
        other => panic!("expected a failure, got {:?}", other),
    }
}

#[test]
fn missing_title_fails_before_submitting() {
    let (session, _) = Session::new(b"home".to_vec(), b"tok".to_vec());
    let (session, _) = session.step(SessionEvent::Fetched {
        response: Ok(doc("Home", "Hi", 3)),
    });
    let (session, _) = session.step(SessionEvent::Written { ok: true });
    let (session, _) = session.step(SessionEvent::EditorExited { accepted: true });
    // The human deleted the title line.
    let (session, action) = session.step(SessionEvent::ReadBack {
        contents: Some(b"---\n---\nHi there".to_vec()),
    });
    assert!(matches!(action, SessionAction::Stop));
    assert!(matches!(
        session.state,
        SessionState::Failed {
            error: SessionError::Parse {
                error: ParseError::MissingTitle
            }
        }
    ));

    // Nothing that follows ever reaches the server.
    let (session, action) = session.step(SessionEvent::Submitted {
        response: Err(uwiki_cli::client::SubmitError::TransportFailure),
    });
    assert!(matches!(action, SessionAction::Stop));
    assert!(matches!(session.state, SessionState::Failed { .. }));
}

#[test]
fn empty_mapping_fails_with_missing_title() {
    let (session, _) = Session::new(b"home".to_vec(), b"tok".to_vec());
    let (session, _) = session.step(SessionEvent::Fetched {
        response: Ok(doc("Home", "Hi", 3)),
    });
    let (session, _) = session.step(SessionEvent::Written { ok: true });
    let (session, _) = session.step(SessionEvent::EditorExited { accepted: true });
    // The human replaced the metadata block with an empty mapping: it
    // decodes, but carries no title.
    let (session, action) = session.step(SessionEvent::ReadBack {
        contents: Some(b"---\n{}\n---\nHi".to_vec()),
    });
    assert!(matches!(action, SessionAction::Stop));
    assert!(matches!(
        session.state,
        SessionState::Failed {
            error: SessionError::Parse {
                error: ParseError::MissingTitle
            }
        }
    ));
}

#[test]
fn fetch_failure_ends_the_session() {
    let (session, _) = Session::new(b"home".to_vec(), b"tok".to_vec());
    let (session, action) = session.step(SessionEvent::Fetched {
        response: Err(FetchError::MissingVersion),
    });
    assert!(matches!(action, SessionAction::Stop));
    assert!(matches!(
        session.state,
        SessionState::Failed {
            error: SessionError::Fetch {
                error: FetchError::MissingVersion
            }
        }
    ));
}

#[test]
fn write_failure_ends_the_session() {
    let (session, _) = Session::new(b"home".to_vec(), b"tok".to_vec());
    let (session, _) = session.step(SessionEvent::Fetched {
        response: Ok(doc("Home", "Hi", 3)),
    });
    let (session, action) = session.step(SessionEvent::Written { ok: false });
    assert!(matches!(action, SessionAction::Stop));
    assert!(matches!(
        session.state,
        SessionState::Failed {
            error: SessionError::FileWrite
        }
    ));
}

#[test]
fn read_failure_ends_the_session() {
    let (session, _) = Session::new(b"home".to_vec(), b"tok".to_vec());
    let (session, _) = session.step(SessionEvent::Fetched {
        response: Ok(doc("Home", "Hi", 3)),
    });
    let (session, _) = session.step(SessionEvent::Written { ok: true });
    let (session, _) = session.step(SessionEvent::EditorExited { accepted: true });
    let (session, action) = session.step(SessionEvent::ReadBack { contents: None });
    assert!(matches!(action, SessionAction::Stop));
    assert!(matches!(
        session.state,
        SessionState::Failed {
            error: SessionError::FileRead
        }
    ));
}

#[test]
fn unexpected_event_changes_nothing() {
    let (session, _) = Session::new(b"home".to_vec(), b"tok".to_vec());
    let (session, action) = session.step(SessionEvent::Written { ok: true });
    assert!(matches!(action, SessionAction::Stop));
    assert!(matches!(session.state, SessionState::Fetching));

    // The session still works afterwards.
    let (session, action) = session.step(SessionEvent::Fetched {
        response: Ok(doc("Home", "Hi", 3)),
    });
    assert!(matches!(action, SessionAction::WriteFile { .. }));
    assert!(matches!(session.state, SessionState::Rendering { version: 3 }));
}

#[test]
fn version_is_forwarded_unchanged() {
    let (session, _) = Session::new(b"page".to_vec(), b"tok".to_vec());
    let (session, _) = session.step(SessionEvent::Fetched {
        response: Ok(doc("T", "B", 41)),
    });
    let (session, _) = session.step(SessionEvent::Written { ok: true });
    let (session, _) = session.step(SessionEvent::EditorExited { accepted: true });
    let (_, action) = session.step(SessionEvent::ReadBack {
        contents: Some(b"---\ntitle: T\n---\nB".to_vec()),
    });
    match action {
        SessionAction::Submit { submission } => {
            assert_eq!(submission.previous_version, 41);
        }
        other => panic!("expected a submission, got {:?}", other),
    }
}
