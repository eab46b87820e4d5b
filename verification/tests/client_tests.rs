use uwiki_cli::client::{
    interpret_fetch_response, interpret_submit_response, FetchError, FetchResponse, SubmitError,
    SubmitResponse,
};

#[test]
fn fetch_rejection_carries_message() {
    let out = interpret_fetch_response(FetchResponse {
        success: false,
        message: b"no such page".to_vec(),
        title: Some(b"T".to_vec()),
        body: None,
        version: Some(1),
    });
    match out {
        Err(FetchError::Rejected { message }) => assert_eq!(message, b"no such page".to_vec()),
        other => panic!("expected a rejection, got {:?}", other),
    }
}

#[test]
fn fetch_without_version_is_unusable() {
    let out = interpret_fetch_response(FetchResponse {
        success: true,
        message: b"ok".to_vec(),
        title: Some(b"T".to_vec()),
        body: Some(b"B".to_vec()),
        version: None,
    });
    assert!(matches!(out, Err(FetchError::MissingVersion)));
}

#[test]
fn fetch_success_yields_document() {
    let out = interpret_fetch_response(FetchResponse {
        success: true,
        message: b"ok".to_vec(),
        title: Some(b"Home".to_vec()),
        body: Some(b"Hi".to_vec()),
        version: Some(3),
    });
    let doc = out.unwrap();
    assert_eq!(doc.title, Some(b"Home".to_vec()));
    assert_eq!(doc.body, Some(b"Hi".to_vec()));
    assert_eq!(doc.version, 3);
}

#[test]
fn fetch_success_keeps_missing_fields_empty() {
    let out = interpret_fetch_response(FetchResponse {
        success: true,
        message: b"ok".to_vec(),
        title: None,
        body: None,
        version: Some(7),
    });
    let doc = out.unwrap();
    assert_eq!(doc.title, None);
    assert_eq!(doc.body, None);
    assert_eq!(doc.version, 7);
}

#[test]
fn submit_success_carries_message_and_version() {
    let out = interpret_submit_response(SubmitResponse {
        success: true,
        message: b"saved".to_vec(),
        new_version: Some(4),
    });
    let outcome = out.unwrap();
    assert_eq!(outcome.message, b"saved".to_vec());
    assert_eq!(outcome.new_version, Some(4));
}

#[test]
fn submit_rejection_carries_message() {
    let out = interpret_submit_response(SubmitResponse {
        success: false,
        message: b"version conflict".to_vec(),
        new_version: None,
    });
    match out {
        Err(SubmitError::Rejected { message }) => {
            assert_eq!(message, b"version conflict".to_vec())
        }
        other => panic!("expected a rejection, got {:?}", other),
    }
}
