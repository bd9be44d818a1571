//! Failures, each with the words and the HTTP status that a client sees.

use vstd::prelude::*;
use crate::text;

verus! {

/// Failures on the way of a request.
#[derive(Debug)]
pub enum PipelineError {
    /// A request header was malformed or inconsistent.
    BadRequest(String),
    /// Identity was missing or invalid.
    Unauthorized(String),
    /// A quota, a policy or the loop breaker blocked the request.
    Blocked(String),
    /// The upstream provider request failed.
    Upstream(String),
    /// The breaker asked for the connection to be closed.
    Abort(String),
    /// The audit capture that the request needs cannot be had.
    Unavailable(String),
}

/// The kind of a [`PipelineError`].
#[derive(Clone, Copy, Debug, PartialEq, Eq, Structural)]
pub enum ErrorKind {
    BadRequest,
    Unauthorized,
    Blocked,
    Upstream,
    Abort,
    Unavailable,
}

/// A [`PipelineError`] by its kind and its detail.
#[verifier::ext_equal]
pub struct ErrorView {
    pub kind: ErrorKind,
    pub detail: Seq<char>,
}

impl View for PipelineError {
    type V = ErrorView;

    open spec fn view(&self) -> ErrorView {
        match self {
            PipelineError::BadRequest(s) => ErrorView { kind: ErrorKind::BadRequest, detail: s@ },
            PipelineError::Unauthorized(s) => ErrorView { kind: ErrorKind::Unauthorized, detail: s@ },
            PipelineError::Blocked(s) => ErrorView { kind: ErrorKind::Blocked, detail: s@ },
            PipelineError::Upstream(s) => ErrorView { kind: ErrorKind::Upstream, detail: s@ },
            PipelineError::Abort(s) => ErrorView { kind: ErrorKind::Abort, detail: s@ },
            PipelineError::Unavailable(s) => ErrorView { kind: ErrorKind::Unavailable, detail: s@ },
        }
    }
}

/// A refusal of a malformed or inconsistent request.
pub open spec fn bad_request(detail: Seq<char>) -> ErrorView {
    ErrorView { kind: ErrorKind::BadRequest, detail }
}

/// A refusal for want of a valid identity.
pub open spec fn unauthorized(detail: Seq<char>) -> ErrorView {
    ErrorView { kind: ErrorKind::Unauthorized, detail }
}

/// A block by a quota, a policy or the breaker.
pub open spec fn blocked(detail: Seq<char>) -> ErrorView {
    ErrorView { kind: ErrorKind::Blocked, detail }
}

/// A failure of the upstream provider.
pub open spec fn upstream(detail: Seq<char>) -> ErrorView {
    ErrorView { kind: ErrorKind::Upstream, detail }
}

/// A request by the breaker to close the connection.
pub open spec fn abort(detail: Seq<char>) -> ErrorView {
    ErrorView { kind: ErrorKind::Abort, detail }
}

/// A want of audit capture.
pub open spec fn unavailable(detail: Seq<char>) -> ErrorView {
    ErrorView { kind: ErrorKind::Unavailable, detail }
}

/// The words that introduce a failure.
pub open spec fn error_prefix(kind: ErrorKind) -> Seq<char> {
    match kind {
        ErrorKind::BadRequest => "bad request: "@,
        ErrorKind::Unauthorized => "unauthorized: "@,
        ErrorKind::Blocked => "request blocked: "@,
        ErrorKind::Upstream => "upstream request failed: "@,
        ErrorKind::Abort => "connection aborted: "@,
        ErrorKind::Unavailable => "audit capture unavailable: "@,
    }
}

/// The HTTP status of a failure. Verdicts that stand for the session are 403
/// and 409, which clients do not retry; 503 is for what may pass.
pub open spec fn error_status(kind: ErrorKind) -> u16 {
    match kind {
        ErrorKind::BadRequest => 400,
        ErrorKind::Unauthorized => 401,
        ErrorKind::Blocked => 403,
        ErrorKind::Upstream => 502,
        ErrorKind::Abort => 409,
        ErrorKind::Unavailable => 503,
    }
}

impl ErrorView {
    /// The words of the failure.
    pub open spec fn words(self) -> Seq<char> {
        error_prefix(self.kind) + self.detail
    }
}

impl PipelineError {
    /// HTTP status code of this failure.
    pub fn status(&self) -> (status: u16)
        ensures
            status == error_status(self@.kind),
    {
        match self {
            PipelineError::BadRequest(_) => 400,
            PipelineError::Unauthorized(_) => 401,
            PipelineError::Blocked(_) => 403,
            PipelineError::Upstream(_) => 502,
            PipelineError::Abort(_) => 409,
            PipelineError::Unavailable(_) => 503,
        }
    }

    /// The failure in words.
    pub fn message(&self) -> (words: String)
        ensures
            words@ == self@.words(),
    {
        match self {
            PipelineError::BadRequest(s) => text::concat2("bad request: ", s.as_str()),
            PipelineError::Unauthorized(s) => text::concat2("unauthorized: ", s.as_str()),
            PipelineError::Blocked(s) => text::concat2("request blocked: ", s.as_str()),
            PipelineError::Upstream(s) => text::concat2("upstream request failed: ", s.as_str()),
            PipelineError::Abort(s) => text::concat2("connection aborted: ", s.as_str()),
            PipelineError::Unavailable(s) => text::concat2("audit capture unavailable: ", s.as_str()),
        }
    }

    /// Whether the response to this failure says when to try again, in a
    /// `Retry-After` header: exactly where the failure may pass.
    pub fn retry_after(&self) -> (retry: bool)
        ensures
            retry == (self@.kind == ErrorKind::Unavailable),
    {
        match self {
            PipelineError::Unavailable(_) => true,
            _ => false,
        }
    }

    /// Whether the response to this failure asks for credentials, in a
    /// `WWW-Authenticate` header: exactly where they were missing or invalid.
    pub fn asks_for_credentials(&self) -> (asks: bool)
        ensures
            asks == (self@.kind == ErrorKind::Unauthorized),
    {
        match self {
            PipelineError::Unauthorized(_) => true,
            _ => false,
        }
    }

    /// Whether the response to this failure closes the connection.
    pub fn closes_connection(&self) -> (close: bool)
        ensures
            close == (self@.kind == ErrorKind::Abort),
    {
        match self {
            PipelineError::Abort(_) => true,
            _ => false,
        }
    }
}

/// Two failures with the same status are of the same kind, and every status
/// is one of an error.
pub proof fn law_status_tells_the_kind(a: ErrorKind, b: ErrorKind)
    ensures
        error_status(a) == error_status(b) ==> a == b,
        400 <= error_status(a) < 600,
{
}

/// A client is told to wait with a 503 and with nothing else, and is asked
/// for credentials with a 401 and with nothing else.
pub proof fn law_status_tells_the_headers(error: ErrorView)
    ensures
        error_status(error.kind) == 503 <==> error.kind == ErrorKind::Unavailable,
        error_status(error.kind) == 401 <==> error.kind == ErrorKind::Unauthorized,
{
}

/// Failures on the way of a session to its end.
#[derive(Debug)]
pub enum FinalizeError {
    /// A task failed or panicked.
    Task(String),
    /// No receipt could be issued.
    Receipt(String),
    /// A trajectory could not be written or read.
    Atif(String),
    /// The session cannot be promoted.
    Promotion(String),
    /// Some upstream action was not captured.
    CaptureIncomplete,
    /// A lifecycle event could not be published.
    Bridge(String),
}

/// A [`FinalizeError`] by its detail.
#[verifier::ext_equal]
pub enum FinalizeErrorView {
    Task(Seq<char>),
    Receipt(Seq<char>),
    Atif(Seq<char>),
    Promotion(Seq<char>),
    CaptureIncomplete,
    Bridge(Seq<char>),
}

impl View for FinalizeError {
    type V = FinalizeErrorView;

    open spec fn view(&self) -> FinalizeErrorView {
        match self {
            FinalizeError::Task(s) => FinalizeErrorView::Task(s@),
            FinalizeError::Receipt(s) => FinalizeErrorView::Receipt(s@),
            FinalizeError::Atif(s) => FinalizeErrorView::Atif(s@),
            FinalizeError::Promotion(s) => FinalizeErrorView::Promotion(s@),
            FinalizeError::CaptureIncomplete => FinalizeErrorView::CaptureIncomplete,
            FinalizeError::Bridge(s) => FinalizeErrorView::Bridge(s@),
        }
    }
}

impl FinalizeErrorView {
    /// The words of the failure.
    pub open spec fn words(self) -> Seq<char> {
        match self {
            FinalizeErrorView::Task(s) => "finalization task failed: "@ + s,
            FinalizeErrorView::Receipt(s) => "receipt issuance failed: "@ + s,
            FinalizeErrorView::Atif(s) => "ATIF finalization failed: "@ + s,
            FinalizeErrorView::Promotion(s) => "promotion refused: "@ + s,
            FinalizeErrorView::CaptureIncomplete => "session capture is incomplete; refusing final artifact"@,
            FinalizeErrorView::Bridge(s) => "lifecycle event publication failed: "@ + s,
        }
    }
}

impl FinalizeError {
    /// The failure in words.
    pub fn message(&self) -> (words: String)
        ensures
            words@ == self@.words(),
    {
        match self {
            FinalizeError::Task(s) => text::concat2("finalization task failed: ", s.as_str()),
            FinalizeError::Receipt(s) => text::concat2("receipt issuance failed: ", s.as_str()),
            FinalizeError::Atif(s) => text::concat2("ATIF finalization failed: ", s.as_str()),
            FinalizeError::Promotion(s) => text::concat2("promotion refused: ", s.as_str()),
            FinalizeError::CaptureIncomplete => {
                "session capture is incomplete; refusing final artifact".to_owned()
            },
            FinalizeError::Bridge(s) => text::concat2("lifecycle event publication failed: ", s.as_str()),
        }
    }
}

/// What a client is told of a failure begins with its kind and ends with its
/// detail, and no two kinds begin alike.
pub proof fn law_words_tell_the_kind(error: ErrorView)
    ensures
        error.words().skip(error.words().len() - error.detail.len()) == error.detail,
        error.kind == ErrorKind::BadRequest ==> error.words() == "bad request: "@ + error.detail,
        error.kind == ErrorKind::Unauthorized ==> error.words() == "unauthorized: "@ + error.detail,
        error.kind == ErrorKind::Blocked ==> error.words() == "request blocked: "@ + error.detail,
        error.kind == ErrorKind::Upstream ==> error.words() == "upstream request failed: "@ + error.detail,
        error.kind == ErrorKind::Abort ==> error.words() == "connection aborted: "@ + error.detail,
        error.kind == ErrorKind::Unavailable ==> error.words() == "audit capture unavailable: "@ + error.detail,
{
    let words = error.words();
    assert(words.skip(words.len() - error.detail.len()) =~= error.detail);
}

/// Each kind of failure has the status that HTTP has for it: what is wrong
/// with the request is a 4xx, what is wrong behind the harness a 5xx.
pub proof fn law_statuses_of_failures(kind: ErrorKind)
    ensures
        error_status(kind) == 400 <==> kind == ErrorKind::BadRequest,
        error_status(kind) == 401 <==> kind == ErrorKind::Unauthorized,
        error_status(kind) == 403 <==> kind == ErrorKind::Blocked,
        error_status(kind) == 409 <==> kind == ErrorKind::Abort,
        error_status(kind) == 502 <==> kind == ErrorKind::Upstream,
        error_status(kind) == 503 <==> kind == ErrorKind::Unavailable,
        error_status(kind) >= 500 <==> kind == ErrorKind::Upstream || kind == ErrorKind::Unavailable,
{
}

/// The words of a failed end begin with what failed and tell the detail.
pub proof fn law_final_words_tell_the_kind(detail: Seq<char>)
    ensures
        FinalizeErrorView::Task(detail).words() == "finalization task failed: "@ + detail,
        FinalizeErrorView::Receipt(detail).words() == "receipt issuance failed: "@ + detail,
        FinalizeErrorView::Atif(detail).words() == "ATIF finalization failed: "@ + detail,
        FinalizeErrorView::Promotion(detail).words() == "promotion refused: "@ + detail,
        FinalizeErrorView::Bridge(detail).words() == "lifecycle event publication failed: "@ + detail,
{
}

} // verus!
