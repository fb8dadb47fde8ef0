//! Error values with stable, machine-readable codes. The code doubles as the process exit
//! status and as the `code` field of the error envelope, so agents can branch on it.
use vstd::prelude::*;

verus! {

/// Classes of failure. Each has a stable exit code and a stable machine-readable name.
#[derive(Clone, Copy, Debug, PartialEq, Eq, Structural)]
pub enum ErrorCode {
    Error,
    Network,
    AuthRequired,
    NotFound,
    RateLimited,
    InvalidInput,
    NoAccount,
}

/// The exit status that stands for a code.
pub open spec fn code_number(code: ErrorCode) -> int {
    match code {
        ErrorCode::Error => 1,
        ErrorCode::Network => 2,
        ErrorCode::AuthRequired => 3,
        ErrorCode::NotFound => 4,
        ErrorCode::RateLimited => 5,
        ErrorCode::InvalidInput => 6,
        ErrorCode::NoAccount => 7,
    }
}

/// The machine-readable name of a code.
pub open spec fn code_name(code: ErrorCode) -> Seq<char> {
    match code {
        ErrorCode::Error => "error"@,
        ErrorCode::Network => "network"@,
        ErrorCode::AuthRequired => "auth_required"@,
        ErrorCode::NotFound => "not_found"@,
        ErrorCode::RateLimited => "rate_limited"@,
        ErrorCode::InvalidInput => "invalid_input"@,
        ErrorCode::NoAccount => "no_account"@,
    }
}

impl ErrorCode {
    /// Machine-readable name of the code, as it appears in the error envelope.
    pub fn name(self) -> (r: &'static str)
        ensures
            r@ == code_name(self),
    {
        match self {
            ErrorCode::Error => "error",
            ErrorCode::Network => "network",
            ErrorCode::AuthRequired => "auth_required",
            ErrorCode::NotFound => "not_found",
            ErrorCode::RateLimited => "rate_limited",
            ErrorCode::InvalidInput => "invalid_input",
            ErrorCode::NoAccount => "no_account",
        }
    }

    /// The process exit status for this code.
    pub fn exit_code(self) -> (r: i32)
        ensures
            r == code_number(self),
    {
        match self {
            ErrorCode::Error => 1,
            ErrorCode::Network => 2,
            ErrorCode::AuthRequired => 3,
            ErrorCode::NotFound => 4,
            ErrorCode::RateLimited => 5,
            ErrorCode::InvalidInput => 6,
            ErrorCode::NoAccount => 7,
        }
    }
}

/// Distinct codes have distinct exit statuses and distinct names, and every exit status of
/// an error lies between 1 and 7 (0 is left for success).
pub proof fn lemma_codes_distinct(a: ErrorCode, b: ErrorCode)
    ensures
        1 <= code_number(a) <= 7,
        code_number(a) == code_number(b) ==> a == b,
        code_name(a) == code_name(b) ==> a == b,
{
    reveal_strlit("error");
    reveal_strlit("network");
    reveal_strlit("auth_required");
    reveal_strlit("not_found");
    reveal_strlit("rate_limited");
    reveal_strlit("invalid_input");
    reveal_strlit("no_account");
    if code_name(a) == code_name(b) {
        assert(code_name(a).len() == code_name(b).len());
        assert(code_name(a)[0] == code_name(b)[0]);
    }
}

/// A failure: its class, a human-readable message, optional context, and optionally a
/// literal command that fixes it.
#[derive(Debug)]
pub struct Error {
    pub code: ErrorCode,
    pub message: String,
    /// Extra context - the upstream response body, device IP, and so on.
    pub detail: Option<String>,
    /// A literal command that fixes this. Agents surface it verbatim.
    pub remediation: Option<String>,
}

/// The mathematical value of an error.
pub struct ErrorView {
    pub code: ErrorCode,
    pub message: Seq<char>,
    pub detail: Option<Seq<char>>,
    pub remediation: Option<Seq<char>>,
}

/// The view of an optional string.
pub open spec fn opt_view(s: Option<String>) -> Option<Seq<char>> {
    match s {
        Some(t) => Some(t@),
        None => None,
    }
}

impl View for Error {
    type V = ErrorView;

    open spec fn view(&self) -> ErrorView {
        ErrorView {
            code: self.code,
            message: self.message@,
            detail: opt_view(self.detail),
            remediation: opt_view(self.remediation),
        }
    }
}

/// An error view with no detail and no remediation.
pub open spec fn plain_error(code: ErrorCode, message: Seq<char>) -> ErrorView {
    ErrorView { code, message, detail: None, remediation: None }
}

impl Error {
    /// An error of the given class with no detail and no remediation.
    pub fn new(code: ErrorCode, message: String) -> (e: Error)
        ensures
            e.code == code,
            e.message@ == message@,
            e.detail is None,
            e.remediation is None,
    {
        Error { code, message, detail: None, remediation: None }
    }

    /// The same error with its detail set (replacing any earlier detail).
    pub fn detail(self, detail: String) -> (e: Error)
        ensures
            e.code == self.code,
            e.message@ == self.message@,
            e.detail matches Some(d) && d@ == detail@,
            e.remediation == self.remediation,
    {
        let mut s = self;
        s.detail = Some(detail);
        s
    }

    /// The same error with its remediation set (replacing any earlier remediation).
    pub fn fix(self, remediation: String) -> (e: Error)
        ensures
            e.code == self.code,
            e.message@ == self.message@,
            e.detail == self.detail,
            e.remediation matches Some(r) && r@ == remediation@,
    {
        let mut s = self;
        s.remediation = Some(remediation);
        s
    }

    /// An `invalid_input` error.
    pub fn invalid(message: String) -> (e: Error)
        ensures
            e.code == ErrorCode::InvalidInput,
            e.message@ == message@,
            e.detail is None,
            e.remediation is None,
    {
        Error::new(ErrorCode::InvalidInput, message)
    }

    /// An `auth_required` error.
    pub fn auth(message: String) -> (e: Error)
        ensures
            e.code == ErrorCode::AuthRequired,
            e.message@ == message@,
            e.detail is None,
            e.remediation is None,
    {
        Error::new(ErrorCode::AuthRequired, message)
    }

    /// A `network` error.
    pub fn network(message: String) -> (e: Error)
        ensures
            e.code == ErrorCode::Network,
            e.message@ == message@,
            e.detail is None,
            e.remediation is None,
    {
        Error::new(ErrorCode::Network, message)
    }

    /// A `not_found` error.
    pub fn not_found(message: String) -> (e: Error)
        ensures
            e.code == ErrorCode::NotFound,
            e.message@ == message@,
            e.detail is None,
            e.remediation is None,
    {
        Error::new(ErrorCode::NotFound, message)
    }

    /// A `no_account` error.
    pub fn no_account(message: String) -> (e: Error)
        ensures
            e.code == ErrorCode::NoAccount,
            e.message@ == message@,
            e.detail is None,
            e.remediation is None,
    {
        Error::new(ErrorCode::NoAccount, message)
    }

    /// An unclassified `error`.
    pub fn other(message: String) -> (e: Error)
        ensures
            e.code == ErrorCode::Error,
            e.message@ == message@,
            e.detail is None,
            e.remediation is None,
    {
        Error::new(ErrorCode::Error, message)
    }
}

/// The kinds of I/O failure that are told apart.
#[derive(Clone, Copy, Debug, PartialEq, Eq, Structural)]
pub enum IoKind {
    NotFound,
    ConnectionRefused,
    ConnectionReset,
    TimedOut,
    Other,
}

/// How a failed WebSocket exchange went wrong, each with the failure's text.
#[derive(Debug)]
pub enum WsFailure {
    /// The connection was closed, or was already closed.
    Closed(String),
    /// An I/O error, with the I/O error's text.
    Io(String),
    /// A TLS failure, with the TLS error's text.
    Tls(String),
    /// Any other failure.
    Other(String),
}

impl Error {
    /// The text an error is shown as: its message.
    pub fn to_string(&self) -> (r: String)
        ensures
            r@ == self.message@,
    {
        self.message.clone()
    }

    /// An I/O failure: a missing file is invalid input; a refused, reset or timed-out
    /// connection is a network error; anything else is unclassified, with detail `io`.
    pub fn from_io(kind: IoKind, text: String) -> (e: Error)
        ensures
            e@ == match kind {
                IoKind::NotFound => plain_error(ErrorCode::InvalidInput, text@),
                IoKind::ConnectionRefused | IoKind::ConnectionReset | IoKind::TimedOut => plain_error(
                    ErrorCode::Network,
                    text@,
                ),
                IoKind::Other => ErrorView {
                    code: ErrorCode::Error,
                    message: text@,
                    detail: Some("io"@),
                    remediation: None,
                },
            },
    {
        match kind {
            IoKind::NotFound => Error::invalid(text),
            IoKind::ConnectionRefused | IoKind::ConnectionReset | IoKind::TimedOut => Error::network(text),
            IoKind::Other => Error::other(text).detail(crate::text::owned("io")),
        }
    }

    /// A failed WebSocket exchange: always a network error, whose detail is the failure's
    /// text.
    pub fn from_ws(failure: WsFailure) -> (e: Error)
        ensures
            e@ == match failure {
                WsFailure::Closed(t) => ErrorView {
                    code: ErrorCode::Network,
                    message: "Connection to TV was closed unexpectedly."@,
                    detail: Some(t@),
                    remediation: None,
                },
                WsFailure::Io(t) => ErrorView {
                    code: ErrorCode::Network,
                    message: "Network I/O error: "@ + t@,
                    detail: Some(t@),
                    remediation: None,
                },
                WsFailure::Tls(t) => ErrorView {
                    code: ErrorCode::Network,
                    message: "TLS handshake with TV failed: "@ + t@,
                    detail: Some(t@),
                    remediation: None,
                },
                WsFailure::Other(t) => ErrorView {
                    code: ErrorCode::Network,
                    message: "WebSocket communication error: "@ + t@,
                    detail: Some(t@),
                    remediation: None,
                },
            },
    {
        match failure {
            WsFailure::Closed(t) => Error::network(
                crate::text::owned("Connection to TV was closed unexpectedly."),
            ).detail(t),
            WsFailure::Io(t) => {
                let mut m = crate::text::owned("Network I/O error: ");
                crate::text::push_str(&mut m, t.as_str());
                Error::network(m).detail(t)
            },
            WsFailure::Tls(t) => {
                let mut m = crate::text::owned("TLS handshake with TV failed: ");
                crate::text::push_str(&mut m, t.as_str());
                Error::network(m).detail(t)
            },
            WsFailure::Other(t) => {
                let mut m = crate::text::owned("WebSocket communication error: ");
                crate::text::push_str(&mut m, t.as_str());
                Error::network(m).detail(t)
            },
        }
    }
}

} // verus!
