//! The error taxonomy of the extraction service: a discriminated kind
//! plus a free-text detail string for display.

use vstd::prelude::*;

verus! {

/// What went wrong, as a kind a caller can branch on.
#[derive(Clone, Copy, Debug, PartialEq, Eq, Structural)]
pub enum ErrorKind {
    /// The workbook path is missing, unreadable, or not a recognised format.
    Open,
    /// The requested sheet is absent, or the sheet could not be extracted.
    SheetNotFound,
    /// The sheet has no rows, so there is no header row.
    EmptyHeader,
    /// Encoding the output failed.
    Serialization,
}

/// One failure: a kind plus a human-readable detail.
#[derive(Debug)]
pub struct ExtractError {
    pub kind: ErrorKind,
    pub detail: String,
}

impl ExtractError {
    /// Builds an error of the given kind carrying the given detail text.
    pub fn new(kind: ErrorKind, detail: String) -> (e: ExtractError)
        ensures
            e.kind == kind,
            e.detail@ == detail@,
    {
        ExtractError { kind, detail }
    }

    /// The text shown to a caller: the kind's fixed prefix, then the detail.
    pub fn message(&self) -> (m: String)
        ensures
            m@ == self.prefix_spec() + self.detail@,
    {
        let prefix: &str = match self.kind {
            ErrorKind::Open => "Failed to open workbook: ",
            ErrorKind::SheetNotFound => "Failed to extract worksheet table",
            ErrorKind::EmptyHeader => "No headers found",
            ErrorKind::Serialization => "Failed to serialize: ",
        };
        let mut m = prefix.to_owned();
        m.append(self.detail.as_str());
        m
    }

    /// The fixed message prefix that belongs to this error's kind.
    pub open spec fn prefix_spec(&self) -> Seq<char> {
        match self.kind {
            ErrorKind::Open => "Failed to open workbook: "@,
            ErrorKind::SheetNotFound => "Failed to extract worksheet table"@,
            ErrorKind::EmptyHeader => "No headers found"@,
            ErrorKind::Serialization => "Failed to serialize: "@,
        }
    }
}

} // verus!
