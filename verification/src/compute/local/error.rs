//! Errors of the local model runtime.

use vstd::prelude::*;

verus! {

/// Errors from downloads, the server process and files.
#[derive(Debug)]
pub enum LocalError {
    Io(String),
    Http(String),
    ModelNotFound(String),
    Runtime(String),
    Cancelled,
}

/// [`LocalError`] as a mathematical value.
pub enum LocalErrorView {
    Io(Seq<char>),
    Http(Seq<char>),
    ModelNotFound(Seq<char>),
    Runtime(Seq<char>),
    Cancelled,
}

impl View for LocalError {
    type V = LocalErrorView;

    open spec fn view(&self) -> LocalErrorView {
        match self {
            LocalError::Io(s) => LocalErrorView::Io(s@),
            LocalError::Http(s) => LocalErrorView::Http(s@),
            LocalError::ModelNotFound(s) => LocalErrorView::ModelNotFound(s@),
            LocalError::Runtime(s) => LocalErrorView::Runtime(s@),
            LocalError::Cancelled => LocalErrorView::Cancelled,
        }
    }
}

impl LocalErrorView {
    /// The message shown for the error.
    pub open spec fn message(self) -> Seq<char> {
        match self {
            LocalErrorView::Io(s) => "io error: "@ + s,
            LocalErrorView::Http(s) => "http error: "@ + s,
            LocalErrorView::ModelNotFound(s) => "model not found: "@ + s,
            LocalErrorView::Runtime(s) => "runtime error: "@ + s,
            LocalErrorView::Cancelled => "download cancelled"@,
        }
    }
}

impl LocalError {
    /// The message shown for the error.
    pub fn to_text(&self) -> (r: String)
        ensures
            r@ == self@.message(),
    {
        match self {
            LocalError::Io(s) => "io error: ".to_owned().concat(s.as_str()),
            LocalError::Http(s) => "http error: ".to_owned().concat(s.as_str()),
            LocalError::ModelNotFound(s) => "model not found: ".to_owned().concat(s.as_str()),
            LocalError::Runtime(s) => "runtime error: ".to_owned().concat(s.as_str()),
            LocalError::Cancelled => "download cancelled".to_owned(),
        }
    }
}

} // verus!
