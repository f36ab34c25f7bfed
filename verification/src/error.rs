//! How the library fails.

use vstd::prelude::*;

use crate::engine::{EngineError, EngineErrorView};
use crate::text::{add_text, chars_of, string_of};

verus! {

/// How an operation of the library fails.
#[derive(Debug, PartialEq, Eq)]
pub enum CoreError {
    /// The library's storage failed.
    Storage { message: String },
    /// The engine failed.
    Engine(EngineError),
    /// The file system failed.
    Io { message: String },
    /// Nothing in the library matches.
    NoMatch { query: String },
    /// The file is not one the library plays.
    NotMedia { path: String },
    /// There is no engine to address.
    NothingPlaying,
    /// Anything else.
    Internal { message: String },
}

/// A failure, with its texts as sequences of characters.
pub enum ErrorView {
    Storage { message: Seq<char> },
    Engine(EngineErrorView),
    Io { message: Seq<char> },
    NoMatch { query: Seq<char> },
    NotMedia { path: Seq<char> },
    NothingPlaying,
    Internal { message: Seq<char> },
}

impl View for CoreError {
    type V = ErrorView;

    open spec fn view(&self) -> ErrorView {
        match *self {
            CoreError::Storage { message } => ErrorView::Storage { message: message@ },
            CoreError::Engine(e) => ErrorView::Engine(e@),
            CoreError::Io { message } => ErrorView::Io { message: message@ },
            CoreError::NoMatch { query } => ErrorView::NoMatch { query: query@ },
            CoreError::NotMedia { path } => ErrorView::NotMedia { path: path@ },
            CoreError::NothingPlaying => ErrorView::NothingPlaying,
            CoreError::Internal { message } => ErrorView::Internal { message: message@ },
        }
    }
}

impl Clone for CoreError {
    fn clone(&self) -> (r: Self)
        ensures
            r == *self,
    {
        match self {
            CoreError::Storage { message } => CoreError::Storage { message: message.clone() },
            CoreError::Engine(e) => CoreError::Engine(e.clone()),
            CoreError::Io { message } => CoreError::Io { message: message.clone() },
            CoreError::NoMatch { query } => CoreError::NoMatch { query: query.clone() },
            CoreError::NotMedia { path } => CoreError::NotMedia { path: path.clone() },
            CoreError::NothingPlaying => CoreError::NothingPlaying,
            CoreError::Internal { message } => CoreError::Internal { message: message.clone() },
        }
    }
}

impl ErrorView {
    /// What the user is told.
    pub open spec fn text(self) -> Seq<char> {
        match self {
            ErrorView::Storage { message } => "library storage failed: "@ + message,
            ErrorView::Engine(e) => e.text(),
            ErrorView::Io { message } => message,
            ErrorView::NoMatch { query } => "nothing in the library matches \""@ + query + "\""@,
            ErrorView::NotMedia { path } => path + " is not a media file Setwave recognises"@,
            ErrorView::NothingPlaying => "nothing is playing"@,
            ErrorView::Internal { message } => message,
        }
    }
}

impl CoreError {
    /// What the user is told.
    pub fn message(&self) -> (r: String)
        ensures
            r@ == self@.text(),
    {
        match self {
            CoreError::Storage { message } => {
                let mut out = chars_of("library storage failed: ");
                add_text(&mut out, message.as_str());
                string_of(out.as_slice())
            },
            CoreError::Engine(e) => e.message(),
            CoreError::Io { message } => message.clone(),
            CoreError::NoMatch { query } => {
                let mut out = chars_of("nothing in the library matches \"");
                add_text(&mut out, query.as_str());
                add_text(&mut out, "\"");
                string_of(out.as_slice())
            },
            CoreError::NotMedia { path } => {
                let mut out = chars_of(path.as_str());
                add_text(&mut out, " is not a media file Setwave recognises");
                string_of(out.as_slice())
            },
            CoreError::NothingPlaying => "nothing is playing".to_owned(),
            CoreError::Internal { message } => message.clone(),
        }
    }
}

} // verus!
