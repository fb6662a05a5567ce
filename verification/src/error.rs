//! The error value shared by the parser and the policy.

use vstd::prelude::*;

verus! {

/// What went wrong, and optionally the underlying reason, both as text.
#[derive(Debug)]
pub struct Error {
    pub message: String,
    pub cause: Option<String>,
}

/// The mathematical content of an [`Error`].
pub struct ErrorView {
    pub message: Seq<char>,
    pub cause: Option<Seq<char>>,
}

impl View for Error {
    type V = ErrorView;

    open spec fn view(&self) -> ErrorView {
        ErrorView {
            message: self.message@,
            cause: match self.cause {
                Some(c) => Some(c@),
                None => None,
            },
        }
    }
}

impl ErrorView {
    /// The one-line rendering: the message, then the cause in parentheses
    /// if there is one.
    pub open spec fn text(self) -> Seq<char> {
        match self.cause {
            Some(c) => self.message + " ("@ + c + ")"@,
            None => self.message,
        }
    }
}

impl Error {
    /// An error that stands on its own.
    pub fn msg(message: String) -> (e: Error)
        ensures
            e@ == (ErrorView { message: message@, cause: None }),
    {
        Error { message, cause: None }
    }

    /// An error that was brought about by another one, described by `cause`.
    pub fn with_cause(message: String, cause: String) -> (e: Error)
        ensures
            e@ == (ErrorView { message: message@, cause: Some(cause@) }),
    {
        Error { message, cause: Some(cause) }
    }

    /// Renders the error on one line, as `message (cause)`, or as `message`
    /// alone where no cause is recorded.
    pub fn to_text(&self) -> (text: String)
        ensures
            text@ == self@.text(),
    {
        let mut text = self.message.clone();
        match &self.cause {
            Some(cause) => {
                text.append(" (");
                text.append(cause.as_str());
                text.append(")");
            },
            None => {},
        }
        text
    }
}

} // verus!
