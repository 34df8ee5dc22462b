//! The library's error type.

use vstd::prelude::*;

verus! {

/// Everything that can go wrong around the evaluation pipeline.
///
/// `BadElement` reports a structurally malformed wire element — a bad
/// discriminator, a missing field, or geometry outside the workable
/// range; `Json` reports text that is not wire-format JSON at all.
#[derive(Clone, Debug, PartialEq)]
pub enum MpError {
    GuiError(String),
    IOError(String),
    Python(String),
    Other(String),
    Json(String),
    Save(String),
    BadElement(String),
}

/// Mathematical image of an [`MpError`].
pub enum MpErrorV {
    GuiError(Seq<char>),
    IOError(Seq<char>),
    Python(Seq<char>),
    Other(Seq<char>),
    Json(Seq<char>),
    Save(Seq<char>),
    BadElement(Seq<char>),
}

impl View for MpError {
    type V = MpErrorV;

    open spec fn view(&self) -> MpErrorV {
        match self {
            MpError::GuiError(s) => MpErrorV::GuiError(s@),
            MpError::IOError(s) => MpErrorV::IOError(s@),
            MpError::Python(s) => MpErrorV::Python(s@),
            MpError::Other(s) => MpErrorV::Other(s@),
            MpError::Json(s) => MpErrorV::Json(s@),
            MpError::Save(s) => MpErrorV::Save(s@),
            MpError::BadElement(s) => MpErrorV::BadElement(s@),
        }
    }
}

impl MpError {
    /// The message carried by the error, for display in the text pane.
    pub fn message(&self) -> (r: &String)
        ensures
            r@ == self.message_spec(),
    {
        match self {
            MpError::GuiError(s) => s,
            MpError::IOError(s) => s,
            MpError::Python(s) => s,
            MpError::Other(s) => s,
            MpError::Json(s) => s,
            MpError::Save(s) => s,
            MpError::BadElement(s) => s,
        }
    }

    /// The message a given error carries.
    pub open spec fn message_spec(&self) -> Seq<char> {
        match self {
            MpError::GuiError(s) => s@,
            MpError::IOError(s) => s@,
            MpError::Python(s) => s@,
            MpError::Other(s) => s@,
            MpError::Json(s) => s@,
            MpError::Save(s) => s@,
            MpError::BadElement(s) => s@,
        }
    }
}

} // verus!
