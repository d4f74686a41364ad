//! The errors that the library reports, and the text of each.

use crate::text::{concat, decimal, decimal_text, texts};
use vstd::prelude::*;
use vstd::string::*;

verus! {

/// What can go wrong for one request or one record.
#[derive(Debug)]
pub enum BypassError {
    /// The remote API answered with a status outside 200..=299.
    Api { status: u16, message: String },
    /// A reference named something that the workspace does not hold.
    NameNotFound { resource_type: String, name: String },
    /// A record is malformed.
    InvalidInput(String),
    /// The input file is of a kind that cannot be read.
    UnsupportedFormat(String),
    /// No response was had: the network or the encoding failed.
    Transport(String),
}

/// A `BypassError` with its strings as sequences of characters.
pub enum ErrorView {
    Api { status: u16, message: Seq<char> },
    NameNotFound { resource_type: Seq<char>, name: Seq<char> },
    InvalidInput(Seq<char>),
    UnsupportedFormat(Seq<char>),
    Transport(Seq<char>),
}

impl ErrorView {
    /// The message shown for the error.
    pub open spec fn text(self) -> Seq<char> {
        match self {
            ErrorView::Api { status, message } => "Shortcut API error (HTTP "@ + decimal_text(
                status as nat,
            ) + "): "@ + message,
            ErrorView::NameNotFound { resource_type, name } => "Name not found – no "@
                + resource_type + " named '"@ + name + "' in this workspace"@,
            ErrorView::InvalidInput(detail) => "Invalid input: "@ + detail,
            ErrorView::UnsupportedFormat(format) => "Unsupported file format '"@ + format
                + "': use .yaml, .csv, or .xlsx"@,
            ErrorView::Transport(detail) => detail,
        }
    }
}

impl View for BypassError {
    type V = ErrorView;

    open spec fn view(&self) -> ErrorView {
        match *self {
            BypassError::Api { status, message } => ErrorView::Api { status, message: message@ },
            BypassError::NameNotFound { resource_type, name } => ErrorView::NameNotFound {
                resource_type: resource_type@,
                name: name@,
            },
            BypassError::InvalidInput(detail) => ErrorView::InvalidInput(detail@),
            BypassError::UnsupportedFormat(format) => ErrorView::UnsupportedFormat(format@),
            BypassError::Transport(detail) => ErrorView::Transport(detail@),
        }
    }
}

impl BypassError {
    /// The error for a reference `name` that names no `resource_type`.
    pub fn not_found(resource_type: &str, name: &str) -> (e: BypassError)
        ensures
            e@ == (ErrorView::NameNotFound { resource_type: resource_type@, name: name@ }),
    {
        BypassError::NameNotFound { resource_type: resource_type.to_owned(), name: name.to_owned() }
    }

    /// The message shown for the error.
    pub fn message(&self) -> (r: String)
        ensures
            r@ == self@.text(),
    {
        match self {
            BypassError::Api { status, message } => {
                let mut r = concat("Shortcut API error (HTTP ", decimal(*status as u64).as_str());
                r.append("): ");
                r.append(message.as_str());
                r
            },
            BypassError::NameNotFound { resource_type, name } => {
                let mut r = concat("Name not found – no ", resource_type.as_str());
                r.append(" named '");
                r.append(name.as_str());
                r.append("' in this workspace");
                r
            },
            BypassError::InvalidInput(detail) => concat("Invalid input: ", detail.as_str()),
            BypassError::UnsupportedFormat(format) => {
                let mut r = concat("Unsupported file format '", format.as_str());
                r.append("': use .yaml, .csv, or .xlsx");
                r
            },
            BypassError::Transport(detail) => detail.clone(),
        }
    }
}

/// A result with its string, or its error, as sequences of characters.
pub open spec fn text_result(r: Result<String, BypassError>) -> Result<Seq<char>, ErrorView> {
    match r {
        Ok(id) => Ok(id@),
        Err(e) => Err(e@),
    }
}

/// A result with its strings, or its error, as sequences of characters.
pub open spec fn texts_result(r: Result<Vec<String>, BypassError>) -> Result<
    Seq<Seq<char>>,
    ErrorView,
> {
    match r {
        Ok(ids) => Ok(texts(ids@)),
        Err(e) => Err(e@),
    }
}

/// A result with its error as sequences of characters.
pub open spec fn id_result(r: Result<i64, BypassError>) -> Result<i64, ErrorView> {
    match r {
        Ok(id) => Ok(id),
        Err(e) => Err(e@),
    }
}

} // verus!
