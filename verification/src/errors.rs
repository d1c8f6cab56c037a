//! The error values that commands and the core hand back.

use vstd::prelude::*;

verus! {

/// The family an error belongs to.
#[derive(Clone, Copy, Debug, PartialEq, Eq, Structural)]
pub enum ErrorKind {
    /// Malformed, unknown or missing call arguments.
    Argument,
    /// An unknown type name, or a value of the wrong type.
    Type,
    /// Text that cannot be read as a value of the expected type.
    Parse,
    /// A row that does not fit its schema, or a schema that is not well formed.
    Schema,
    /// No command is registered under the requested path.
    CommandNotFound,
    /// The receiver's type has no method of the requested name.
    MethodNotFound,
    /// The underlying resource could not be accessed.
    Io,
    /// The other end of the stream is gone.
    Closed,
    /// The output was bound before.
    AlreadyInitialized,
}

/// An error: its family and a message for the user.
#[derive(Debug, PartialEq, Eq)]
pub struct CrushError {
    pub kind: ErrorKind,
    pub message: String,
}

/// The mathematical content of a `CrushError`.
pub struct ErrorView {
    pub kind: ErrorKind,
    pub message: Seq<char>,
}

impl View for CrushError {
    type V = ErrorView;

    open spec fn view(&self) -> ErrorView {
        ErrorView { kind: self.kind, message: self.message@ }
    }
}

pub type CrushResult<T> = Result<T, CrushError>;

/// The view of a result that carries no value.
pub open spec fn outcome(r: CrushResult<()>) -> Result<(), ErrorView> {
    match r {
        Ok(_) => Ok(()),
        Err(e) => Err(e@),
    }
}

/// An error of family `kind` that says `message`.
pub open spec fn error_view(kind: ErrorKind, message: Seq<char>) -> ErrorView {
    ErrorView { kind, message }
}

impl CrushError {
    /// An error of family `kind` that says `message`.
    pub fn new(kind: ErrorKind, message: &str) -> (e: CrushError)
        ensures
            e@ == error_view(kind, message@),
    {
        CrushError { kind, message: message.to_owned() }
    }

    /// An error of family `kind` whose message is `prefix` followed by `detail`.
    pub fn with_detail(kind: ErrorKind, prefix: &str, detail: &str) -> (e: CrushError)
        ensures
            e@ == error_view(kind, prefix@ + detail@),
    {
        let mut message = prefix.to_owned();
        message.append(detail);
        CrushError { kind, message }
    }

    /// A copy of this error.
    pub fn duplicate(&self) -> (e: CrushError)
        ensures
            e@ == self@,
    {
        CrushError { kind: self.kind, message: self.message.clone() }
    }
}

/// An `Argument` error that says `message`.
pub fn argument_error(message: &str) -> (e: CrushError)
    ensures
        e@ == error_view(ErrorKind::Argument, message@),
{
    CrushError::new(ErrorKind::Argument, message)
}

} // verus!
