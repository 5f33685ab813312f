//! The closed set of failures an edit can end in.

use vstd::prelude::*;

verus! {

/// What went wrong, as a discriminant callers can match on.
#[derive(Clone, Copy, Debug, PartialEq, Eq, Structural)]
pub enum ErrorKind {
    /// The target path did not exist before anything was attempted.
    FileNotFound,
    /// The bytes do not follow the executable layout, or a resource
    /// structure inside them is malformed.
    ParseError,
    /// The icon source could be used neither as an image nor as a ready
    /// icon container.
    IconError,
    /// Reading or writing at the filesystem boundary failed.
    IOError,
}

/// A failure with its kind and a short human-readable context.
#[derive(Debug)]
pub struct EditError {
    pub kind: ErrorKind,
    pub context: String,
}

impl EditError {
    /// Builds an error of the given kind around a context message.
    pub fn new(kind: ErrorKind, context: &str) -> (e: EditError)
        ensures
            e.kind == kind,
            e.context@ == context@,
    {
        EditError { kind, context: context.to_owned() }
    }

    /// The kind discriminant.
    pub fn kind(&self) -> (k: ErrorKind)
        ensures
            k == self.kind,
    {
        self.kind
    }

    /// The message shown for this error: the kind's label, a colon and the context.
    pub fn message(&self) -> (s: String)
        ensures
            s@ == kind_label(self.kind) + ": "@ + self.context@,
    {
        let label: &str = match self.kind {
            ErrorKind::FileNotFound => "file not found",
            ErrorKind::ParseError => "parse error",
            ErrorKind::IconError => "icon error",
            ErrorKind::IOError => "i/o error",
        };
        let mut s = label.to_owned();
        s.append(": ");
        s.append(self.context.as_str());
        s
    }
}

/// The label each kind is shown with.
pub open spec fn kind_label(kind: ErrorKind) -> Seq<char> {
    match kind {
        ErrorKind::FileNotFound => "file not found"@,
        ErrorKind::ParseError => "parse error"@,
        ErrorKind::IconError => "icon error"@,
        ErrorKind::IOError => "i/o error"@,
    }
}

} // verus!
