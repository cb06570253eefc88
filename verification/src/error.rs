//! The ways an operation can stop without a value.

use vstd::prelude::*;
use crate::value::{Data, Value};

verus! {

/// Why an operation gave no value.
#[derive(Debug)]
pub enum Error {
    /// No frame on the way to the root binds the symbol.
    UnboundSymbol(String),
    /// `car` or `cdr` of something that is neither a pair nor `Nil`.
    NotAPair,
    /// A chain of pairs was expected to end in `Nil` and does not.
    NotAProperList,
    /// A name was expected and something else was found.
    NotASymbol,
    /// A function was called with the wrong number of arguments.
    ArityMismatch { expected: usize, actual: usize },
    /// A primitive was handed an operand of the wrong kind.
    TypeError,
    /// The operator of a call is neither a closure nor a primitive.
    NotAFunction,
    /// The primitive table has no entry of this name.
    UnknownPrimitive(String),
    /// The evaluation needed more nesting than its fuel allowed.
    Exhausted,
    /// The `exit` primitive was applied: the session is to end.
    Exit,
    /// The text ended where an expression was to begin.
    UnexpectedEnd,
    /// The text ended inside a list.
    Unclosed,
}

/// What an [`Error`] stands for.
pub enum Failure {
    UnboundSymbol(Seq<char>),
    NotAPair,
    NotAProperList,
    NotASymbol,
    ArityMismatch { expected: nat, actual: nat },
    TypeError,
    NotAFunction,
    UnknownPrimitive(Seq<char>),
    Exhausted,
    Exit,
    UnexpectedEnd,
    Unclosed,
}

impl View for Error {
    type V = Failure;

    open spec fn view(&self) -> Failure {
        match self {
            Error::UnboundSymbol(s) => Failure::UnboundSymbol(s@),
            Error::NotAPair => Failure::NotAPair,
            Error::NotAProperList => Failure::NotAProperList,
            Error::NotASymbol => Failure::NotASymbol,
            Error::ArityMismatch { expected, actual } => Failure::ArityMismatch {
                expected: *expected as nat,
                actual: *actual as nat,
            },
            Error::TypeError => Failure::TypeError,
            Error::NotAFunction => Failure::NotAFunction,
            Error::UnknownPrimitive(s) => Failure::UnknownPrimitive(s@),
            Error::Exhausted => Failure::Exhausted,
            Error::Exit => Failure::Exit,
            Error::UnexpectedEnd => Failure::UnexpectedEnd,
            Error::Unclosed => Failure::Unclosed,
        }
    }
}

/// What the result of an operation stands for.
pub open spec fn outcome(r: Result<Data, Error>) -> Result<Value, Failure> {
    match r {
        Ok(d) => Ok(d@),
        Err(e) => Err(e@),
    }
}

} // verus!
