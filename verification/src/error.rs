//! Why a run ends without its result. Every failure is final: nothing is
//! retried, and each one has a message for the user.

use crate::digits::{decimal, decimal_digits};
use crate::text::push_chars;
use vstd::prelude::*;

verus! {

/// One of the two listings that the multiplexer is asked for.
#[derive(Debug, Clone, Copy, PartialEq, Eq, Structural)]
pub enum Query {
    Sessions,
    Windows,
}

/// In which way a selection fails to single out its target.
#[derive(Debug, Clone, Copy, PartialEq, Eq, Structural)]
pub enum Cardinality {
    /// No session is left.
    NoSession,
    /// More than one session is left.
    ManySessions,
    /// The one session that is left holds no window.
    NoWindow,
    /// The one session that is left holds more than one window.
    ManyWindows,
}

/// A failure as a mathematical value.
pub enum ErrorView {
    Parse { query: Query, line: Seq<char> },
    Query { query: Query, cause: Seq<char> },
    Consistency { session: usize, line: Seq<char> },
    Cardinality { found: Cardinality },
    Dispatch { cause: Seq<char> },
}

/// A failure.
#[derive(Debug)]
pub enum Error {
    /// A line of a listing does not follow the listing's grammar.
    Parse { query: Query, line: String },
    /// A listing could not be had from the multiplexer.
    Query { query: Query, cause: String },
    /// A line of the window listing names a session that the session listing
    /// did not report.
    Consistency { session: usize, line: String },
    /// The selection does not single out one target.
    Cardinality { found: Cardinality },
    /// The request to the multiplexer could not be issued.
    Dispatch { cause: String },
}

impl View for Error {
    type V = ErrorView;

    open spec fn view(&self) -> ErrorView {
        match *self {
            Error::Parse { query, line } => ErrorView::Parse { query, line: line@ },
            Error::Query { query, cause } => ErrorView::Query { query, cause: cause@ },
            Error::Consistency { session, line } => ErrorView::Consistency {
                session,
                line: line@,
            },
            Error::Cardinality { found } => ErrorView::Cardinality { found },
            Error::Dispatch { cause } => ErrorView::Dispatch { cause: cause@ },
        }
    }
}

impl Query {
    /// The word for what the listing lists.
    pub open spec fn noun(self) -> Seq<char> {
        match self {
            Query::Sessions => "session"@,
            Query::Windows => "window"@,
        }
    }

    /// Executable form of [`Query::noun`].
    pub fn word(self) -> (word: &'static str)
        ensures
            word@ == self.noun(),
    {
        match self {
            Query::Sessions => "session",
            Query::Windows => "window",
        }
    }
}

impl Cardinality {
    /// What the user is told.
    pub open spec fn message(self) -> Seq<char> {
        match self {
            Cardinality::NoSession => "empty selection: no session matches"@,
            Cardinality::ManySessions => "ambiguous selection: more than one session matches"@,
            Cardinality::NoWindow => "empty selection: the session has no window"@,
            Cardinality::ManyWindows => "ambiguous selection: more than one window matches"@,
        }
    }

    /// Executable form of [`Cardinality::message`].
    pub fn text(self) -> (text: &'static str)
        ensures
            text@ == self.message(),
    {
        match self {
            Cardinality::NoSession => "empty selection: no session matches",
            Cardinality::ManySessions => "ambiguous selection: more than one session matches",
            Cardinality::NoWindow => "empty selection: the session has no window",
            Cardinality::ManyWindows => "ambiguous selection: more than one window matches",
        }
    }
}

impl ErrorView {
    /// What the user is told about the failure.
    pub open spec fn message(self) -> Seq<char> {
        match self {
            ErrorView::Parse { query, line } => "malformed line in the "@ + query.noun()
                + " listing: "@ + line,
            ErrorView::Query { query, cause } => "cannot get the "@ + query.noun() + " listing: "@
                + cause,
            ErrorView::Consistency { session, line } => "window of unknown session "@ + decimal(
                session as nat,
            ) + ": "@ + line,
            ErrorView::Cardinality { found } => found.message(),
            ErrorView::Dispatch { cause } => "cannot reach the multiplexer: "@ + cause,
        }
    }
}

impl Error {
    /// What the user is told about the failure.
    pub fn message(&self) -> (text: String)
        ensures
            text@ == self@.message(),
    {
        match self {
            Error::Parse { query, line } => {
                let mut text = "malformed line in the ".to_owned();
                text.append(query.word());
                text.append(" listing: ");
                text.append(line.as_str());
                text
            },
            Error::Query { query, cause } => {
                let mut text = "cannot get the ".to_owned();
                text.append(query.word());
                text.append(" listing: ");
                text.append(cause.as_str());
                text
            },
            Error::Consistency { session, line } => {
                let mut text = "window of unknown session ".to_owned();
                let digits = decimal_digits(*session);
                push_chars(&mut text, &digits);
                text.append(": ");
                text.append(line.as_str());
                text
            },
            Error::Cardinality { found } => found.text().to_owned(),
            Error::Dispatch { cause } => {
                let mut text = "cannot reach the multiplexer: ".to_owned();
                text.append(cause.as_str());
                text
            },
        }
    }
}

} // verus!
