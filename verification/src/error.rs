//! The closed error taxonomy of the query engine.

use vstd::prelude::*;
use vstd::string::StringExecFns;
use crate::scan::{flat, flatten, holds_no, law_flat_is_single_line};

verus! {

/// Every failure of an invocation falls into exactly one of these categories.
/// The payload is the message shown after the category prefix.
#[derive(Debug, PartialEq, Eq)]
pub enum WavepeekError {
    /// Malformed flags, a bad regex, a non-positive limit, conflicting options.
    Args(String),
    /// A missing dump, a dump the decoder rejects, missing or invalid timescale,
    /// overflow while scaling a timestamp.
    File(String),
    /// A scope path that names no scope of the hierarchy.
    Scope(String),
    /// A command that is recognised but has no execution path yet.
    Unimplemented(String),
    /// A serialization failure or another violated invariant.
    Internal(String),
}

/// The mathematical value of an error: its category and its message.
pub enum ErrorView {
    Args(Seq<char>),
    File(Seq<char>),
    Scope(Seq<char>),
    Unimplemented(Seq<char>),
    Internal(Seq<char>),
}

impl View for WavepeekError {
    type V = ErrorView;

    open spec fn view(&self) -> ErrorView {
        match self {
            WavepeekError::Args(m) => ErrorView::Args(m@),
            WavepeekError::File(m) => ErrorView::File(m@),
            WavepeekError::Scope(m) => ErrorView::Scope(m@),
            WavepeekError::Unimplemented(m) => ErrorView::Unimplemented(m@),
            WavepeekError::Internal(m) => ErrorView::Internal(m@),
        }
    }
}

/// The mathematical value of an outcome: of the result on success, of the
/// error on failure.
pub open spec fn outcome_view<T: View>(r: Result<T, WavepeekError>) -> Result<T::V, ErrorView> {
    match r {
        Ok(value) => Ok(value@),
        Err(error) => Err(error@),
    }
}

/// The category word that prefixes a rendered error.
pub open spec fn category_text(e: ErrorView) -> Seq<char> {
    match e {
        ErrorView::Args(_) => "args"@,
        ErrorView::File(_) => "file"@,
        ErrorView::Scope(_) => "scope"@,
        ErrorView::Unimplemented(_) => "unimplemented"@,
        ErrorView::Internal(_) => "internal"@,
    }
}

/// The message carried by an error, without any prefix.
pub open spec fn message_text(e: ErrorView) -> Seq<char> {
    match e {
        ErrorView::Args(m) => m,
        ErrorView::File(m) => m,
        ErrorView::Scope(m) => m,
        ErrorView::Unimplemented(m) => m,
        ErrorView::Internal(m) => m,
    }
}

/// The single line shown to the user: `error: <category>: <message>`,
/// flattened, so that it is a single line whatever the message holds.
pub open spec fn rendered_text(e: ErrorView) -> Seq<char> {
    flat("error: "@ + category_text(e) + ": "@ + message_text(e))
}

/// Every error is shown on a single line: the rendered text holds no line
/// feed.
pub proof fn law_rendered_is_single_line(e: ErrorView)
    ensures
        holds_no(rendered_text(e), '\n'),
{
    law_flat_is_single_line("error: "@ + category_text(e) + ": "@ + message_text(e));
}

/// The process exit status of each category: 2 for trouble with the dump
/// file, 1 for everything else.
pub open spec fn exit_status(e: ErrorView) -> u8 {
    match e {
        ErrorView::File(_) => 2u8,
        _ => 1u8,
    }
}

impl WavepeekError {
    /// The category word of this error.
    pub fn category(&self) -> (r: &'static str)
        ensures
            r@ == category_text(self@),
    {
        match self {
            WavepeekError::Args(_) => "args",
            WavepeekError::File(_) => "file",
            WavepeekError::Scope(_) => "scope",
            WavepeekError::Unimplemented(_) => "unimplemented",
            WavepeekError::Internal(_) => "internal",
        }
    }

    /// The message of this error, without the category prefix.
    pub fn message(&self) -> (r: &str)
        ensures
            r@ == message_text(self@),
    {
        match self {
            WavepeekError::Args(m) => m.as_str(),
            WavepeekError::File(m) => m.as_str(),
            WavepeekError::Scope(m) => m.as_str(),
            WavepeekError::Unimplemented(m) => m.as_str(),
            WavepeekError::Internal(m) => m.as_str(),
        }
    }

    /// The exit status that the process reports for this error.
    pub fn exit_code(&self) -> (r: u8)
        ensures
            r == exit_status(self@),
    {
        match self {
            WavepeekError::File(_) => 2,
            _ => 1,
        }
    }

    /// Renders the error as its single user-facing line.
    pub fn render(&self) -> (r: String)
        ensures
            r@ == rendered_text(self@),
    {
        let mut out = String::from_str("error: ");
        out.append(self.category());
        out.append(": ");
        out.append(self.message());
        flatten(out.as_str())
    }
}

} // verus!
