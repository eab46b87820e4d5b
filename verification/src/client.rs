//! The remote page client's verified half.
//!
//! The client performs two network operations: fetch the current
//! document with its version, and submit new content under the version
//! captured at fetch time.  The transport itself — issuing the requests
//! and decoding their wire format — is unverified shell work; it reports
//! transport failures as such and hands the decoded plain fields in
//! here, where the responses are interpreted into the error taxonomy.
use crate::format::opt_view;
use vstd::prelude::*;

verus! {

/// The server's current copy of a document, as a fetch returns it.  The
/// version is an opaque counter the server assigns; the client only
/// echoes it back.
#[derive(Debug)]
pub struct RemoteDocument {
    pub title: Option<Vec<u8>>,
    pub body: Option<Vec<u8>>,
    pub version: i32,
}

/// Ghost image of a [`RemoteDocument`].
pub struct RemoteDocumentV {
    pub title: Option<Seq<u8>>,
    pub body: Option<Seq<u8>>,
    pub version: int,
}

impl View for RemoteDocument {
    type V = RemoteDocumentV;

    open spec fn view(&self) -> RemoteDocumentV {
        RemoteDocumentV {
            title: opt_view(self.title),
            body: opt_view(self.body),
            version: self.version as int,
        }
    }
}

/// Why a fetch yielded no document.
#[derive(Debug)]
pub enum FetchError {
    /// The request could not be sent, or the response could not be read.
    TransportFailure,
    /// The server answered, flagging failure.
    Rejected { message: Vec<u8> },
    /// The server reported success but returned no version, so no
    /// guarded submit could ever follow.
    MissingVersion,
}

/// Ghost image of a [`FetchError`].
pub enum FetchErrorV {
    TransportFailure,
    Rejected { message: Seq<u8> },
    MissingVersion,
}

impl View for FetchError {
    type V = FetchErrorV;

    open spec fn view(&self) -> FetchErrorV {
        match self {
            FetchError::TransportFailure => FetchErrorV::TransportFailure,
            FetchError::Rejected { message } => FetchErrorV::Rejected { message: message@ },
            FetchError::MissingVersion => FetchErrorV::MissingVersion,
        }
    }
}

/// Why a submit did not go through.
#[derive(Debug)]
pub enum SubmitError {
    /// The request could not be sent, or the response could not be read.
    TransportFailure,
    /// The server answered, flagging failure — among else when the
    /// submitted `previous_version` is stale.  The client does not
    /// retry: only a human can resolve a concurrent edit.
    Rejected { message: Vec<u8> },
}

/// Ghost image of a [`SubmitError`].
pub enum SubmitErrorV {
    TransportFailure,
    Rejected { message: Seq<u8> },
}

impl View for SubmitError {
    type V = SubmitErrorV;

    open spec fn view(&self) -> SubmitErrorV {
        match self {
            SubmitError::TransportFailure => SubmitErrorV::TransportFailure,
            SubmitError::Rejected { message } => SubmitErrorV::Rejected { message: message@ },
        }
    }
}

/// A successful submit: the server's message and, when it sent one, the
/// version it assigned to the new copy.
#[derive(Debug)]
pub struct SubmitOutcome {
    pub message: Vec<u8>,
    pub new_version: Option<i32>,
}

/// Ghost image of a [`SubmitOutcome`].
pub struct SubmitOutcomeV {
    pub message: Seq<u8>,
    pub new_version: Option<int>,
}

impl View for SubmitOutcome {
    type V = SubmitOutcomeV;

    open spec fn view(&self) -> SubmitOutcomeV {
        SubmitOutcomeV {
            message: self.message@,
            new_version: match self.new_version {
                Some(v) => Some(v as int),
                None => None,
            },
        }
    }
}

/// What a submit sends: the edited document, the credential, and the
/// fetch-time version as the optimistic concurrency guard.
#[derive(Debug)]
pub struct EditSubmission {
    pub credential_token: Vec<u8>,
    pub slug: Vec<u8>,
    pub title: Vec<u8>,
    pub body: Vec<u8>,
    pub previous_version: i32,
}

/// Ghost image of an [`EditSubmission`].
pub struct EditSubmissionV {
    pub credential_token: Seq<u8>,
    pub slug: Seq<u8>,
    pub title: Seq<u8>,
    pub body: Seq<u8>,
    pub previous_version: int,
}

impl View for EditSubmission {
    type V = EditSubmissionV;

    open spec fn view(&self) -> EditSubmissionV {
        EditSubmissionV {
            credential_token: self.credential_token@,
            slug: self.slug@,
            title: self.title@,
            body: self.body@,
            previous_version: self.previous_version as int,
        }
    }
}

/// A fetch response as decoded from the wire: a success flag, a message,
/// and the document fields, each of which the server may omit.
#[derive(Debug)]
pub struct FetchResponse {
    pub success: bool,
    pub message: Vec<u8>,
    pub title: Option<Vec<u8>>,
    pub body: Option<Vec<u8>>,
    pub version: Option<i32>,
}

/// A submit response as decoded from the wire.
#[derive(Debug)]
pub struct SubmitResponse {
    pub success: bool,
    pub message: Vec<u8>,
    pub new_version: Option<i32>,
}

/// Interprets a fetch response: a server-flagged failure is a rejection
/// carrying the server's message; a success without a version is
/// unusable, since no submit could be guarded by it; anything else is
/// the document.
pub fn interpret_fetch_response(r: FetchResponse) -> (out: Result<RemoteDocument, FetchError>)
    ensures
        !r.success ==> (out matches Err(e) && e@ == FetchErrorV::Rejected { message: r.message@ }),
        r.success && r.version is None ==> (out matches Err(e) && e@
            == FetchErrorV::MissingVersion),
        r.success ==> (r.version matches Some(v) ==> (out matches Ok(doc) && doc@
            == (RemoteDocumentV {
            title: opt_view(r.title),
            body: opt_view(r.body),
            version: v as int,
        }))),
{
    if !r.success {
        Err(FetchError::Rejected { message: r.message })
    } else {
        match r.version {
            None => Err(FetchError::MissingVersion),
            Some(v) => Ok(RemoteDocument { title: r.title, body: r.body, version: v }),
        }
    }
}

/// Interprets a submit response: server-flagged success carries the
/// message and the new version; anything else is a rejection carrying
/// the server's message.
pub fn interpret_submit_response(r: SubmitResponse) -> (out: Result<SubmitOutcome, SubmitError>)
    ensures
        r.success ==> (out matches Ok(o) && o.message@ == r.message@ && o.new_version
            == r.new_version),
        !r.success ==> (out matches Err(e) && e@ == SubmitErrorV::Rejected {
            message: r.message@,
        }),
{
    if r.success {
        Ok(SubmitOutcome { message: r.message, new_version: r.new_version })
    } else {
        Err(SubmitError::Rejected { message: r.message })
    }
}

} // verus!
