//! The edit session orchestrator.
//!
//! One session is one pass of the pipeline fetch → render → edit →
//! parse → submit.  The orchestrator is a state machine: the unverified
//! shell performs each outside action it asks for — a network call, a
//! file write or read, running the editor — and feeds the outcome back
//! in as an event.  Every decision, and everything that only computes
//! (rendering, parsing, building the submission), happens in here.
//!
//! The machine makes one full pass and stops: `Done`, `Aborted` and
//! `Failed` are terminal, and an aborted or failed session never asks
//! for another action.  When the editor reports failure the session
//! aborts deliberately: the edit file is kept for the human and the
//! server is not contacted again.
use crate::client::EditSubmission;
use crate::client::EditSubmissionV;
use crate::client::FetchError;
use crate::client::FetchErrorV;
use crate::client::RemoteDocument;
use crate::client::RemoteDocumentV;
use crate::client::SubmitError;
use crate::client::SubmitErrorV;
use crate::client::SubmitOutcome;
use crate::client::SubmitOutcomeV;
use crate::format::ParseError;
use crate::format::opt_view;
use crate::format::parse;
use crate::format::parse_spec;
use crate::format::push_all;
use crate::format::render;
use crate::format::render_spec;
use vstd::prelude::*;

verus! {

/// Why a session failed.  An editor abort is not here: it is a
/// controlled stop, not an error.
#[derive(Debug)]
pub enum SessionError {
    /// The fetch yielded no usable document.
    Fetch { error: FetchError },
    /// The edit file could not be created or written; no user edits
    /// exist yet, so failing is safe.
    FileWrite,
    /// The edit file could not be read back after the editor exited.
    FileRead,
    /// The edited text did not parse back into metadata and body.
    Parse { error: ParseError },
    /// The server did not accept the submission.
    Submit { error: SubmitError },
}

/// Ghost image of a [`SessionError`].
pub enum SessionErrorV {
    Fetch { error: FetchErrorV },
    FileWrite,
    FileRead,
    Parse { error: ParseError },
    Submit { error: SubmitErrorV },
}

impl View for SessionError {
    type V = SessionErrorV;

    open spec fn view(&self) -> SessionErrorV {
        match self {
            SessionError::Fetch { error } => SessionErrorV::Fetch { error: error@ },
            SessionError::FileWrite => SessionErrorV::FileWrite,
            SessionError::FileRead => SessionErrorV::FileRead,
            SessionError::Parse { error } => SessionErrorV::Parse { error: *error },
            SessionError::Submit { error } => SessionErrorV::Submit { error: error@ },
        }
    }
}

/// Where a session stands.  The non-terminal states each await one
/// outcome from the shell; the `version` they carry is the one the
/// fetch returned, held for the submission's concurrency guard.
#[derive(Debug)]
pub enum SessionState {
    /// Awaiting the fetch outcome.
    Fetching,
    /// The editable text is rendered; awaiting the file write outcome.
    Rendering { version: i32 },
    /// Awaiting the editor's exit.
    Editing { version: i32 },
    /// Awaiting the edited file's contents.
    Reading { version: i32 },
    /// Awaiting the server's answer to the submission.
    Submitting { version: i32 },
    /// Terminal: the server accepted the submission.
    Done { message: Vec<u8> },
    /// Terminal: the editor reported failure; the edit file is kept.
    Aborted,
    /// Terminal: the session failed.
    Failed { error: SessionError },
}

/// Ghost image of a [`SessionState`].
pub enum SessionStateV {
    Fetching,
    Rendering { version: int },
    Editing { version: int },
    Reading { version: int },
    Submitting { version: int },
    Done { message: Seq<u8> },
    Aborted,
    Failed { error: SessionErrorV },
}

impl View for SessionState {
    type V = SessionStateV;

    open spec fn view(&self) -> SessionStateV {
        match self {
            SessionState::Fetching => SessionStateV::Fetching,
            SessionState::Rendering { version } => SessionStateV::Rendering {
                version: *version as int,
            },
            SessionState::Editing { version } => SessionStateV::Editing {
                version: *version as int,
            },
            SessionState::Reading { version } => SessionStateV::Reading {
                version: *version as int,
            },
            SessionState::Submitting { version } => SessionStateV::Submitting {
                version: *version as int,
            },
            SessionState::Done { message } => SessionStateV::Done { message: message@ },
            SessionState::Aborted => SessionStateV::Aborted,
            SessionState::Failed { error } => SessionStateV::Failed { error: error@ },
        }
    }
}

/// An outcome the shell reports back to the machine.
#[derive(Debug)]
pub enum SessionEvent {
    /// The fetch finished, interpreted by the client.
    Fetched { response: Result<RemoteDocument, FetchError> },
    /// The edit file was created and written — or not.
    Written { ok: bool },
    /// The editor exited; `accepted` is whether it exited cleanly.
    EditorExited { accepted: bool },
    /// The edit file was read back, or could not be.
    ReadBack { contents: Option<Vec<u8>> },
    /// The submit finished, interpreted by the client.
    Submitted { response: Result<SubmitOutcome, SubmitError> },
}

/// Ghost image of a [`SessionEvent`].
pub enum SessionEventV {
    Fetched { response: Result<RemoteDocumentV, FetchErrorV> },
    Written { ok: bool },
    EditorExited { accepted: bool },
    ReadBack { contents: Option<Seq<u8>> },
    Submitted { response: Result<SubmitOutcomeV, SubmitErrorV> },
}

impl View for SessionEvent {
    type V = SessionEventV;

    open spec fn view(&self) -> SessionEventV {
        match self {
            SessionEvent::Fetched { response } => SessionEventV::Fetched {
                response: match response {
                    Ok(doc) => Ok(doc@),
                    Err(e) => Err(e@),
                },
            },
            SessionEvent::Written { ok } => SessionEventV::Written { ok: *ok },
            SessionEvent::EditorExited { accepted } => SessionEventV::EditorExited {
                accepted: *accepted,
            },
            SessionEvent::ReadBack { contents } => SessionEventV::ReadBack {
                contents: opt_view(*contents),
            },
            SessionEvent::Submitted { response } => SessionEventV::Submitted {
                response: match response {
                    Ok(o) => Ok(o@),
                    Err(e) => Err(e@),
                },
            },
        }
    }
}

/// What the machine asks the shell to do next.
#[derive(Debug)]
pub enum SessionAction {
    /// Fetch the document named by `slug` with the credential.
    Fetch { slug: Vec<u8>, credential_token: Vec<u8> },
    /// Create the edit file and write `text` to it, fully flushed
    /// before anything else happens.
    WriteFile { text: Vec<u8> },
    /// Hand the edit file to the editor and wait for it to exit.
    RunEditor,
    /// Read the edit file back in full.
    ReadFile,
    /// Send the submission to the server.
    Submit { submission: EditSubmission },
    /// Keep the edit file instead of deleting it, and report its path.
    KeepFile,
    /// Nothing: the session is over.
    Stop,
}

/// Ghost image of a [`SessionAction`].
pub enum SessionActionV {
    Fetch { slug: Seq<u8>, credential_token: Seq<u8> },
    WriteFile { text: Seq<u8> },
    RunEditor,
    ReadFile,
    Submit { submission: EditSubmissionV },
    KeepFile,
    Stop,
}

impl View for SessionAction {
    type V = SessionActionV;

    open spec fn view(&self) -> SessionActionV {
        match self {
            SessionAction::Fetch { slug, credential_token } => SessionActionV::Fetch {
                slug: slug@,
                credential_token: credential_token@,
            },
            SessionAction::WriteFile { text } => SessionActionV::WriteFile { text: text@ },
            SessionAction::RunEditor => SessionActionV::RunEditor,
            SessionAction::ReadFile => SessionActionV::ReadFile,
            SessionAction::Submit { submission } => SessionActionV::Submit {
                submission: submission@,
            },
            SessionAction::KeepFile => SessionActionV::KeepFile,
            SessionAction::Stop => SessionActionV::Stop,
        }
    }
}

/// The transition function: from a state and an event to the next state
/// and the next action.  An event a state does not await leaves the
/// state as it is and asks for nothing; so does any event in a terminal
/// state.
pub open spec fn next_state(slug: Seq<u8>, token: Seq<u8>, s: SessionStateV, e: SessionEventV) -> (
    SessionStateV,
    SessionActionV,
) {
    match (s, e) {
        (SessionStateV::Fetching, SessionEventV::Fetched { response }) => match response {
            Ok(doc) => (
                SessionStateV::Rendering { version: doc.version },
                SessionActionV::WriteFile { text: render_spec(doc.title, doc.body) },
            ),
            Err(error) => (
                SessionStateV::Failed { error: SessionErrorV::Fetch { error } },
                SessionActionV::Stop,
            ),
        },
        (SessionStateV::Rendering { version }, SessionEventV::Written { ok }) => if ok {
            (SessionStateV::Editing { version }, SessionActionV::RunEditor)
        } else {
            (SessionStateV::Failed { error: SessionErrorV::FileWrite }, SessionActionV::Stop)
        },
        (SessionStateV::Editing { version }, SessionEventV::EditorExited { accepted }) => if accepted {
            (SessionStateV::Reading { version }, SessionActionV::ReadFile)
        } else {
            (SessionStateV::Aborted, SessionActionV::KeepFile)
        },
        (SessionStateV::Reading { version }, SessionEventV::ReadBack { contents }) => match contents {
            Some(text) => match parse_spec(text) {
                Ok(p) => (
                    SessionStateV::Submitting { version },
                    SessionActionV::Submit {
                        submission: EditSubmissionV {
                            credential_token: token,
                            slug: slug,
                            title: p.0,
                            body: p.1,
                            previous_version: version,
                        },
                    },
                ),
                Err(error) => (
                    SessionStateV::Failed { error: SessionErrorV::Parse { error } },
                    SessionActionV::Stop,
                ),
            },
            None => (
                SessionStateV::Failed { error: SessionErrorV::FileRead },
                SessionActionV::Stop,
            ),
        },
        (SessionStateV::Submitting { version }, SessionEventV::Submitted { response }) => match response {
            Ok(outcome) => (
                SessionStateV::Done { message: outcome.message },
                SessionActionV::Stop,
            ),
            Err(error) => (
                SessionStateV::Failed { error: SessionErrorV::Submit { error } },
                SessionActionV::Stop,
            ),
        },
        (_, _) => (s, SessionActionV::Stop),
    }
}

/// One edit session: the document slug, the credential, and where the
/// pipeline stands.
#[derive(Debug)]
pub struct Session {
    pub slug: Vec<u8>,
    pub credential_token: Vec<u8>,
    pub state: SessionState,
}

/// Ghost image of a [`Session`].
pub struct SessionV {
    pub slug: Seq<u8>,
    pub credential_token: Seq<u8>,
    pub state: SessionStateV,
}

impl View for Session {
    type V = SessionV;

    open spec fn view(&self) -> SessionV {
        SessionV {
            slug: self.slug@,
            credential_token: self.credential_token@,
            state: self.state@,
        }
    }
}

/// Copies a byte text.
fn copy_bytes(src: &Vec<u8>) -> (r: Vec<u8>)
    ensures
        r@ == src@,
{
    let mut out: Vec<u8> = Vec::new();
    push_all(&mut out, src);
    proof {
        assert(out@ =~= src@);
    }
    out
}

impl Session {
    /// Opens a session for one document: it starts out fetching, and the
    /// returned action asks the shell for that fetch.
    pub fn new(slug: Vec<u8>, credential_token: Vec<u8>) -> (r: (Session, SessionAction))
        ensures
            r.0@ == (SessionV {
                slug: slug@,
                credential_token: credential_token@,
                state: SessionStateV::Fetching,
            }),
            r.1@ == (SessionActionV::Fetch { slug: slug@, credential_token: credential_token@ }),
    {
        let action = SessionAction::Fetch {
            slug: copy_bytes(&slug),
            credential_token: copy_bytes(&credential_token),
        };
        (Session { slug, credential_token, state: SessionState::Fetching }, action)
    }

    /// Feeds one outcome into the machine; the result is the advanced
    /// session and what the shell must do next, exactly as `next_state`
    /// says.
    pub fn step(self, event: SessionEvent) -> (r: (Session, SessionAction))
        ensures
            r.0@.slug == self@.slug,
            r.0@.credential_token == self@.credential_token,
            (r.0@.state, r.1@) == next_state(self@.slug, self@.credential_token, self@.state, event@),
    {
        let Session { slug, credential_token, state } = self;
        match (state, event) {
            (SessionState::Fetching, SessionEvent::Fetched { response }) => match response {
                Ok(doc) => {
                    let text = render(&doc.title, &doc.body);
                    (
                        Session {
                            slug,
                            credential_token,
                            state: SessionState::Rendering { version: doc.version },
                        },
                        SessionAction::WriteFile { text },
                    )
                },
                Err(error) => (
                    Session {
                        slug,
                        credential_token,
                        state: SessionState::Failed { error: SessionError::Fetch { error } },
                    },
                    SessionAction::Stop,
                ),
            },
            (SessionState::Rendering { version }, SessionEvent::Written { ok }) => {
                if ok {
                    (
                        Session {
                            slug,
                            credential_token,
                            state: SessionState::Editing { version },
                        },
                        SessionAction::RunEditor,
                    )
                } else {
                    (
                        Session {
                            slug,
                            credential_token,
                            state: SessionState::Failed { error: SessionError::FileWrite },
                        },
                        SessionAction::Stop,
                    )
                }
            },
            (SessionState::Editing { version }, SessionEvent::EditorExited { accepted }) => {
                if accepted {
                    (
                        Session {
                            slug,
                            credential_token,
                            state: SessionState::Reading { version },
                        },
                        SessionAction::ReadFile,
                    )
                } else {
                    (
                        Session { slug, credential_token, state: SessionState::Aborted },
                        SessionAction::KeepFile,
                    )
                }
            },
            (SessionState::Reading { version }, SessionEvent::ReadBack { contents }) => match contents {
                Some(text) => match parse(&text) {
                    Ok(p) => {
                        let submission = EditSubmission {
                            credential_token: copy_bytes(&credential_token),
                            slug: copy_bytes(&slug),
                            title: p.0.title,
                            body: p.1,
                            previous_version: version,
                        };
                        (
                            Session {
                                slug,
                                credential_token,
                                state: SessionState::Submitting { version },
                            },
                            SessionAction::Submit { submission },
                        )
                    },
                    Err(error) => (
                        Session {
                            slug,
                            credential_token,
                            state: SessionState::Failed {
                                error: SessionError::Parse { error },
                            },
                        },
                        SessionAction::Stop,
                    ),
                },
                None => (
                    Session {
                        slug,
                        credential_token,
                        state: SessionState::Failed { error: SessionError::FileRead },
                    },
                    SessionAction::Stop,
                ),
            },
            (SessionState::Submitting { version: _ }, SessionEvent::Submitted { response }) => match response {
                Ok(outcome) => (
                    Session {
                        slug,
                        credential_token,
                        state: SessionState::Done { message: outcome.message },
                    },
                    SessionAction::Stop,
                ),
                Err(error) => (
                    Session {
                        slug,
                        credential_token,
                        state: SessionState::Failed { error: SessionError::Submit { error } },
                    },
                    SessionAction::Stop,
                ),
            },
            (st, _) => (
                Session { slug, credential_token, state: st },
                SessionAction::Stop,
            ),
        }
    }
}

/// Whether a state ends the session.
pub open spec fn is_terminal(s: SessionStateV) -> bool {
    s is Done || s is Aborted || s is Failed
}

/// The fetch-time version a state carries for the concurrency guard.
pub open spec fn carried_version(s: SessionStateV) -> Option<int> {
    match s {
        SessionStateV::Rendering { version } => Some(version),
        SessionStateV::Editing { version } => Some(version),
        SessionStateV::Reading { version } => Some(version),
        SessionStateV::Submitting { version } => Some(version),
        _ => None,
    }
}

/// The state after feeding a whole sequence of events in, one by one.
pub open spec fn run_state(
    slug: Seq<u8>,
    token: Seq<u8>,
    s: SessionStateV,
    es: Seq<SessionEventV>,
) -> SessionStateV
    decreases es.len(),
{
    if es.len() == 0 {
        s
    } else {
        run_state(slug, token, next_state(slug, token, s, es.first()).0, es.drop_first())
    }
}

/// The actions a whole sequence of events elicits, in order.
pub open spec fn run_actions(
    slug: Seq<u8>,
    token: Seq<u8>,
    s: SessionStateV,
    es: Seq<SessionEventV>,
) -> Seq<SessionActionV>
    decreases es.len(),
{
    if es.len() == 0 {
        Seq::empty()
    } else {
        seq![next_state(slug, token, s, es.first()).1] + run_actions(
            slug,
            token,
            next_state(slug, token, s, es.first()).0,
            es.drop_first(),
        )
    }
}

/// A terminal state is a trap: whatever events still arrive, the state
/// never changes and no action is ever asked for again.
pub proof fn lemma_terminal_trap(
    slug: Seq<u8>,
    token: Seq<u8>,
    s: SessionStateV,
    es: Seq<SessionEventV>,
)
    requires
        is_terminal(s),
    ensures
        run_state(slug, token, s, es) == s,
        forall|k: int|
            0 <= k < run_actions(slug, token, s, es).len() ==> run_actions(slug, token, s, es)[k]
                == SessionActionV::Stop,
    decreases es.len(),
{
    if es.len() > 0 {
        assert(next_state(slug, token, s, es.first()) == (s, SessionActionV::Stop));
        lemma_terminal_trap(slug, token, s, es.drop_first());
        assert forall|k: int| 0 <= k < run_actions(slug, token, s, es).len() implies run_actions(
            slug,
            token,
            s,
            es,
        )[k] == SessionActionV::Stop by {
            if k >= 1 {
                assert(run_actions(slug, token, s, es)[k] == run_actions(
                    slug,
                    token,
                    s,
                    es.drop_first(),
                )[k - 1]);
            }
        }
    }
}

/// From any state that carries the fetch-time version `v` — or is
/// already terminal — every submission ever asked for guards on exactly
/// `v`, and carries the session's own slug and credential.
pub proof fn lemma_version_stable(
    slug: Seq<u8>,
    token: Seq<u8>,
    s: SessionStateV,
    es: Seq<SessionEventV>,
    v: int,
)
    requires
        carried_version(s) == Some(v) || is_terminal(s),
    ensures
        forall|k: int|
            0 <= k < run_actions(slug, token, s, es).len() ==> (#[trigger] run_actions(
                slug,
                token,
                s,
                es,
            )[k] matches SessionActionV::Submit { submission } ==> submission.previous_version == v
                && submission.slug == slug && submission.credential_token == token),
    decreases es.len(),
{
    if es.len() > 0 {
        let s2 = next_state(slug, token, s, es.first()).0;
        let a = next_state(slug, token, s, es.first()).1;
        assert(carried_version(s2) == Some(v) || is_terminal(s2));
        assert(a matches SessionActionV::Submit { submission } ==> submission.previous_version == v
            && submission.slug == slug && submission.credential_token == token);
        lemma_version_stable(slug, token, s2, es.drop_first(), v);
        assert forall|k: int| 0 <= k < run_actions(slug, token, s, es).len() implies (
        #[trigger] run_actions(slug, token, s, es)[k] matches SessionActionV::Submit {
            submission,
        } ==> submission.previous_version == v && submission.slug == slug
            && submission.credential_token == token) by {
            if k >= 1 {
                assert(run_actions(slug, token, s, es)[k] == run_actions(
                    slug,
                    token,
                    s2,
                    es.drop_first(),
                )[k - 1]);
            }
        }
    }
}

/// Version forwarding: in a session that fetched a document, every
/// submission ever asked for carries `previous_version` equal to the
/// version that fetch returned — never incremented, decremented or
/// defaulted — along with the session's slug and credential.
pub proof fn lemma_version_forwarding(
    slug: Seq<u8>,
    token: Seq<u8>,
    doc: RemoteDocumentV,
    es: Seq<SessionEventV>,
)
    ensures
        ({
            let first = next_state(
                slug,
                token,
                SessionStateV::Fetching,
                SessionEventV::Fetched { response: Ok(doc) },
            );
            let acts = seq![first.1] + run_actions(slug, token, first.0, es);
            &&& first.0 == SessionStateV::Rendering { version: doc.version }
            &&& forall|k: int|
                0 <= k < acts.len() ==> (#[trigger] acts[k] matches SessionActionV::Submit {
                    submission,
                } ==> submission.previous_version == doc.version && submission.slug == slug
                    && submission.credential_token == token)
        }),
{
    let first = next_state(
        slug,
        token,
        SessionStateV::Fetching,
        SessionEventV::Fetched { response: Ok(doc) },
    );
    let acts = seq![first.1] + run_actions(slug, token, first.0, es);
    lemma_version_stable(slug, token, first.0, es, doc.version);
    assert forall|k: int| 0 <= k < acts.len() implies (#[trigger] acts[k]
        matches SessionActionV::Submit { submission } ==> submission.previous_version == doc.version
        && submission.slug == slug && submission.credential_token == token) by {
        if k >= 1 {
            assert(acts[k] == run_actions(slug, token, first.0, es)[k - 1]);
        }
    }
}

/// Abort preserves data: when the editor reports failure in `Editing`,
/// the session moves to `Aborted` and its one action is to keep the
/// edit file; and whatever events follow, it stays `Aborted` and never
/// asks for a submission.
pub proof fn lemma_abort_preserves_data(
    slug: Seq<u8>,
    token: Seq<u8>,
    version: int,
    es: Seq<SessionEventV>,
)
    ensures
        ({
            let first = next_state(
                slug,
                token,
                SessionStateV::Editing { version },
                SessionEventV::EditorExited { accepted: false },
            );
            &&& first.0 == SessionStateV::Aborted
            &&& first.1 == SessionActionV::KeepFile
            &&& run_state(slug, token, first.0, es) == SessionStateV::Aborted
            &&& forall|k: int|
                0 <= k < run_actions(slug, token, first.0, es).len() ==> !(#[trigger] run_actions(
                    slug,
                    token,
                    first.0,
                    es,
                )[k] is Submit)
        }),
{
    lemma_terminal_trap(slug, token, SessionStateV::Aborted, es);
}

/// A parse failure ends the session: the state becomes `Failed` with
/// that parse error — in particular `MissingTitle` when the metadata
/// block holds no title — `Submitting` is never reached, and no
/// submission is ever asked for.
pub proof fn lemma_parse_failure_never_submits(
    slug: Seq<u8>,
    token: Seq<u8>,
    version: int,
    text: Seq<u8>,
    es: Seq<SessionEventV>,
)
    requires
        parse_spec(text) is Err,
    ensures
        ({
            let first = next_state(
                slug,
                token,
                SessionStateV::Reading { version },
                SessionEventV::ReadBack { contents: Some(text) },
            );
            &&& first.0 == SessionStateV::Failed {
                error: SessionErrorV::Parse { error: parse_spec(text)->Err_0 },
            }
            &&& first.1 == SessionActionV::Stop
            &&& run_state(slug, token, first.0, es) == first.0
            &&& forall|k: int|
                0 <= k < run_actions(slug, token, first.0, es).len() ==> !(#[trigger] run_actions(
                    slug,
                    token,
                    first.0,
                    es,
                )[k] is Submit)
        }),
{
    let first = next_state(
        slug,
        token,
        SessionStateV::Reading { version },
        SessionEventV::ReadBack { contents: Some(text) },
    );
    lemma_terminal_trap(slug, token, first.0, es);
}

} // verus!
