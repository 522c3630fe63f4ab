//! Error types for api2cli.

use vstd::prelude::*;

use crate::text::push_str;

verus! {

/// The errors that loading and reading a spec can give.
#[derive(Debug)]
pub enum Error {
    /// Failed to load the spec from a URL or file path.
    SpecLoad { url: String, message: String },
    /// The spec is structurally invalid or missing required fields.
    InvalidSpec(String),
    /// The OpenAPI version is not supported (must be 2.0 or 3.x).
    UnsupportedVersion(String),
    /// No matching operation was found for the given subcommand.
    OperationNotFound(String),
}

/// An [`Error`] with its texts as character sequences.
pub enum ErrorView {
    SpecLoad { url: Seq<char>, message: Seq<char> },
    InvalidSpec(Seq<char>),
    UnsupportedVersion(Seq<char>),
    OperationNotFound(Seq<char>),
}

impl View for Error {
    type V = ErrorView;

    open spec fn view(&self) -> ErrorView {
        match self {
            Error::SpecLoad { url, message } => ErrorView::SpecLoad { url: url@, message: message@ },
            Error::InvalidSpec(m) => ErrorView::InvalidSpec(m@),
            Error::UnsupportedVersion(m) => ErrorView::UnsupportedVersion(m@),
            Error::OperationNotFound(m) => ErrorView::OperationNotFound(m@),
        }
    }
}

/// The text that an error is displayed with.
pub open spec fn error_text(e: ErrorView) -> Seq<char> {
    match e {
        ErrorView::SpecLoad { url, message } => "Failed to load spec from '"@ + url + "': "@
            + message,
        ErrorView::InvalidSpec(m) => "Invalid OpenAPI spec: "@ + m,
        ErrorView::UnsupportedVersion(m) => "Unsupported OpenAPI version: "@ + m,
        ErrorView::OperationNotFound(m) => "Operation not found: '"@ + m + "'"@,
    }
}

impl Error {
    /// The text that the error is displayed with.
    pub fn message(&self) -> (r: String)
        ensures
            r@ == error_text(self@),
    {
        let mut r = String::new();
        match self {
            Error::SpecLoad { url, message } => {
                push_str(&mut r, "Failed to load spec from '");
                push_str(&mut r, url.as_str());
                push_str(&mut r, "': ");
                push_str(&mut r, message.as_str());
            },
            Error::InvalidSpec(m) => {
                push_str(&mut r, "Invalid OpenAPI spec: ");
                push_str(&mut r, m.as_str());
            },
            Error::UnsupportedVersion(m) => {
                push_str(&mut r, "Unsupported OpenAPI version: ");
                push_str(&mut r, m.as_str());
            },
            Error::OperationNotFound(m) => {
                push_str(&mut r, "Operation not found: '");
                push_str(&mut r, m.as_str());
                push_str(&mut r, "'");
            },
        }
        proof {
            assert(r@ =~= error_text(self@));
        }
        r
    }
}

} // verus!
