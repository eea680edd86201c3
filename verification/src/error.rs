//! Errors of the applet's operations and the message each one shows.

use vstd::prelude::*;

verus! {

#[derive(Debug, Clone)]
pub enum Error {
    CommandExecution(String),
    CommandFailed { stderr: String, stdout: String },
    AuthenticationFailed(String),
    SessionNotFound(String),
    JsonParse(String),
    ProfileNotFound(String),
    InvalidInput(String),
    DbusConnection(String),
    DbusMethod(String),
    DbusProperty(String),
}

/// Abstract view of an error: its kind and the text it carries.
pub enum ErrorView {
    CommandExecution(Seq<char>),
    CommandFailed { stderr: Seq<char>, stdout: Seq<char> },
    AuthenticationFailed(Seq<char>),
    SessionNotFound(Seq<char>),
    JsonParse(Seq<char>),
    ProfileNotFound(Seq<char>),
    InvalidInput(Seq<char>),
    DbusConnection(Seq<char>),
    DbusMethod(Seq<char>),
    DbusProperty(Seq<char>),
}

impl View for Error {
    type V = ErrorView;

    open spec fn view(&self) -> ErrorView {
        match self {
            Error::CommandExecution(m) => ErrorView::CommandExecution(m@),
            Error::CommandFailed { stderr, stdout } => ErrorView::CommandFailed {
                stderr: stderr@,
                stdout: stdout@,
            },
            Error::AuthenticationFailed(m) => ErrorView::AuthenticationFailed(m@),
            Error::SessionNotFound(m) => ErrorView::SessionNotFound(m@),
            Error::JsonParse(m) => ErrorView::JsonParse(m@),
            Error::ProfileNotFound(m) => ErrorView::ProfileNotFound(m@),
            Error::InvalidInput(m) => ErrorView::InvalidInput(m@),
            Error::DbusConnection(m) => ErrorView::DbusConnection(m@),
            Error::DbusMethod(m) => ErrorView::DbusMethod(m@),
            Error::DbusProperty(m) => ErrorView::DbusProperty(m@),
        }
    }
}

/// The text shown for an error: a fixed lead for its kind, then its details.
pub open spec fn error_message(e: ErrorView) -> Seq<char> {
    match e {
        ErrorView::CommandExecution(m) => "Failed to execute command: "@ + m,
        ErrorView::CommandFailed { stderr, stdout } => "Command failed: "@ + stderr,
        ErrorView::AuthenticationFailed(m) => "Authentication failed: "@ + m,
        ErrorView::SessionNotFound(m) => "Session not found: "@ + m,
        ErrorView::JsonParse(m) => "Failed to parse JSON: "@ + m,
        ErrorView::ProfileNotFound(m) => "Profile not found: "@ + m,
        ErrorView::InvalidInput(m) => "Invalid input: "@ + m,
        ErrorView::DbusConnection(m) => "D-Bus connection error: "@ + m,
        ErrorView::DbusMethod(m) => "D-Bus method call error: "@ + m,
        ErrorView::DbusProperty(m) => "D-Bus property error: "@ + m,
    }
}

/// `lead` followed by `detail`, as an owned string.
pub fn joined(lead: &str, detail: &str) -> (r: String)
    ensures
        r@ == lead@ + detail@,
{
    let mut r = String::from_str(lead);
    r.append(detail);
    r
}

impl Error {
    /// The text shown for this error.
    pub fn message(&self) -> (r: String)
        ensures
            r@ == error_message(self@),
    {
        match self {
            Error::CommandExecution(m) => joined("Failed to execute command: ", m.as_str()),
            Error::CommandFailed { stderr, .. } => joined("Command failed: ", stderr.as_str()),
            Error::AuthenticationFailed(m) => joined("Authentication failed: ", m.as_str()),
            Error::SessionNotFound(m) => joined("Session not found: ", m.as_str()),
            Error::JsonParse(m) => joined("Failed to parse JSON: ", m.as_str()),
            Error::ProfileNotFound(m) => joined("Profile not found: ", m.as_str()),
            Error::InvalidInput(m) => joined("Invalid input: ", m.as_str()),
            Error::DbusConnection(m) => joined("D-Bus connection error: ", m.as_str()),
            Error::DbusMethod(m) => joined("D-Bus method call error: ", m.as_str()),
            Error::DbusProperty(m) => joined("D-Bus property error: ", m.as_str()),
        }
    }
}

} // verus!
