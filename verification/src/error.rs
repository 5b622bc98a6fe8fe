//! The error that every fallible operation of the library returns.
use vstd::prelude::*;

verus! {

/// What went wrong: an argument, a value that failed validation, a payload
/// that is not JSON, or the file system.
#[derive(Clone, Copy, Debug, PartialEq, Eq, Structural)]
pub enum ErrorKind {
    Config,
    Validation,
    Json,
    Io,
}

/// An error with its kind and the message shown to the operator.
#[derive(Debug)]
pub struct AppError {
    pub kind: ErrorKind,
    pub message: String,
}

/// The mathematical value of an error: its kind and the characters of its
/// message.
pub struct ErrorView {
    pub kind: ErrorKind,
    pub message: Seq<char>,
}

impl View for AppError {
    type V = ErrorView;

    open spec fn view(&self) -> ErrorView {
        ErrorView { kind: self.kind, message: self.message@ }
    }
}

pub open spec fn config_error(message: Seq<char>) -> ErrorView {
    ErrorView { kind: ErrorKind::Config, message }
}

pub open spec fn validation_error(message: Seq<char>) -> ErrorView {
    ErrorView { kind: ErrorKind::Validation, message }
}

pub open spec fn json_error(message: Seq<char>) -> ErrorView {
    ErrorView { kind: ErrorKind::Json, message }
}

/// `r` is the verdict `v`: the same value, or an error with the same view.
pub open spec fn result_is<T>(r: Result<T, AppError>, v: Result<T, ErrorView>) -> bool {
    match (r, v) {
        (Ok(a), Ok(b)) => a == b,
        (Err(e), Err(w)) => e@ == w,
        _ => false,
    }
}

/// `r` is the verdict `v`, a string result taken by its characters.
pub open spec fn str_result_is(r: Result<String, AppError>, v: Result<Seq<char>, ErrorView>) -> bool {
    match (r, v) {
        (Ok(a), Ok(b)) => a@ == b,
        (Err(e), Err(w)) => e@ == w,
        _ => false,
    }
}

impl AppError {
    pub fn config(message: String) -> (e: AppError)
        ensures
            e@ == config_error(message@),
    {
        AppError { kind: ErrorKind::Config, message }
    }

    pub fn validation(message: String) -> (e: AppError)
        ensures
            e@ == validation_error(message@),
    {
        AppError { kind: ErrorKind::Validation, message }
    }

    pub fn json(message: String) -> (e: AppError)
        ensures
            e@ == json_error(message@),
    {
        AppError { kind: ErrorKind::Json, message }
    }

    pub fn io(message: String) -> (e: AppError)
        ensures
            e@ == (ErrorView { kind: ErrorKind::Io, message: message@ }),
    {
        AppError { kind: ErrorKind::Io, message }
    }

    /// The text shown to the operator: the message itself.
    pub fn to_string(&self) -> (s: String)
        ensures
            s@ == self.message@,
    {
        self.message.clone()
    }
}

} // verus!
