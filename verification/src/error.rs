//! The error model: syntax errors, compile errors and runtime errors.
//!
//! Syntax and compile errors are accumulated and reported in batch;
//! runtime errors abort the current run and propagate to the caller as a
//! list of one. Contracts speak of errors through their views.

use vstd::prelude::*;

verus! {

use crate::value::{view_types, Type, TypeV};

/// An error raised while a program runs.
#[derive(Debug)]
pub enum RuntimeError {
    /// An extern function was called with the wrong number or shapes of
    /// arguments: the function's name and the argument types handed in.
    ExternTypeMismatch(String, Vec<Type>),
    /// An extern function reported a failure of its own: the function's
    /// name and its message.
    ExternError(String, String),
    /// An operand had the wrong shape for an operation.
    TypeMismatch { line: usize, message: String },
    /// An `<=>` assertion in the program did not hold.
    AssertFailed { line: usize },
    /// An internal virtual-machine fault: a stack or index invariant was
    /// violated. Fatal, not recoverable.
    Fault { line: usize, message: String },
}

/// The view of a [`RuntimeError`].
pub ghost enum RuntimeErrorV {
    ExternTypeMismatch(Seq<char>, Seq<TypeV>),
    ExternError(Seq<char>, Seq<char>),
    TypeMismatch { line: usize, message: Seq<char> },
    AssertFailed { line: usize },
    Fault { line: usize, message: Seq<char> },
}

impl View for RuntimeError {
    type V = RuntimeErrorV;

    open spec fn view(&self) -> RuntimeErrorV {
        match *self {
            RuntimeError::ExternTypeMismatch(ref name, ref tys) => RuntimeErrorV::ExternTypeMismatch(
                name@,
                view_types(tys@),
            ),
            RuntimeError::ExternError(ref name, ref msg) => RuntimeErrorV::ExternError(
                name@,
                msg@,
            ),
            RuntimeError::TypeMismatch { line, ref message } => RuntimeErrorV::TypeMismatch {
                line,
                message: message@,
            },
            RuntimeError::AssertFailed { line } => RuntimeErrorV::AssertFailed { line },
            RuntimeError::Fault { line, ref message } => RuntimeErrorV::Fault {
                line,
                message: message@,
            },
        }
    }
}

/// Any error the pipeline can produce.
#[derive(Debug)]
pub enum Error {
    /// The caller asked to compile but gave no file.
    NoFileGiven,
    /// A malformed token sequence.
    SyntaxError { file: String, line: usize, message: String },
    /// A name-resolution, duplicate-definition or structural compile
    /// failure.
    CompileError { file: String, line: usize, message: Option<String> },
    /// A runtime error carried out of a run.
    RuntimeError { error: RuntimeError },
}

/// The view of an [`Error`].
pub ghost enum ErrorV {
    NoFileGiven,
    SyntaxError { file: Seq<char>, line: usize, message: Seq<char> },
    CompileError { file: Seq<char>, line: usize, message: Option<Seq<char>> },
    RuntimeError { error: RuntimeErrorV },
}

impl View for Error {
    type V = ErrorV;

    open spec fn view(&self) -> ErrorV {
        match *self {
            Error::NoFileGiven => ErrorV::NoFileGiven,
            Error::SyntaxError { ref file, line, ref message } => ErrorV::SyntaxError {
                file: file@,
                line,
                message: message@,
            },
            Error::CompileError { ref file, line, ref message } => ErrorV::CompileError {
                file: file@,
                line,
                message: match *message {
                    Option::Some(ref m) => Option::Some(m@),
                    Option::None => Option::None,
                },
            },
            Error::RuntimeError { ref error } => ErrorV::RuntimeError { error: error@ },
        }
    }
}

/// The views of a sequence of errors, in order.
pub open spec fn view_errors(s: Seq<Error>) -> Seq<ErrorV> {
    Seq::new(s.len(), |i: int| s[i]@)
}

} // verus!
