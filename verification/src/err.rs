//! Failure values of the parsing and evaluation layers.

use vstd::prelude::*;
use vstd::string::StringExecFns;

verus! {

/// A failure while turning text into an expression tree.
#[derive(Debug, PartialEq)]
pub enum ParseError {
    /// A piece of text that no token class matches; carries the slice.
    Lex(String),
    /// Input ran out while a form was still open or before one was read.
    UnexpectedEof,
    /// The input held no expression: a stray close paren at top level.
    NoToken,
    /// A numeric token whose text did not convert to a double.
    Format(String),
}

/// The view of a parse failure.
pub enum ParseErrV {
    Lex(Seq<char>),
    UnexpectedEof,
    NoToken,
    Format(Seq<char>),
}

impl View for ParseError {
    type V = ParseErrV;

    open spec fn view(&self) -> ParseErrV {
        match self {
            ParseError::Lex(s) => ParseErrV::Lex(s@),
            ParseError::UnexpectedEof => ParseErrV::UnexpectedEof,
            ParseError::NoToken => ParseErrV::NoToken,
            ParseError::Format(s) => ParseErrV::Format(s@),
        }
    }
}

impl ParseError {
    /// A short, human-readable account of the failure.
    pub fn message(&self) -> String {
        match self {
            ParseError::Lex(s) => String::from_str("unknown token: ").concat(s.as_str()),
            ParseError::UnexpectedEof => String::from_str("unexpected end of input"),
            ParseError::NoToken => String::from_str("no token found"),
            ParseError::Format(s) => String::from_str("not a number: ").concat(s.as_str()),
        }
    }
}

/// A failure while evaluating an expression tree.
#[derive(Debug, PartialEq)]
pub enum EvalError {
    /// A malformed form: an empty list, a head that is no symbol, a special
    /// form with the wrong operand count, or a lambda without a body.
    Syntax,
    /// An operand that does not carry the kind of value a procedure needs.
    Type,
    /// A procedure reached past the operands it was given.
    Arity,
    /// A divisor whose absolute value lies below 1e-12.
    DivisionByZero,
    /// A procedure name that no builtin carries; holds the name.
    Name(String),
    /// Nesting of evaluations beyond the interpreter's depth bound.
    Depth,
}

/// The view of an evaluation failure.
pub enum EvalErrV {
    Syntax,
    Type,
    Arity,
    DivisionByZero,
    Name(Seq<char>),
    Depth,
}

impl View for EvalError {
    type V = EvalErrV;

    open spec fn view(&self) -> EvalErrV {
        match self {
            EvalError::Syntax => EvalErrV::Syntax,
            EvalError::Type => EvalErrV::Type,
            EvalError::Arity => EvalErrV::Arity,
            EvalError::DivisionByZero => EvalErrV::DivisionByZero,
            EvalError::Name(s) => EvalErrV::Name(s@),
            EvalError::Depth => EvalErrV::Depth,
        }
    }
}

impl EvalError {
    /// A short, human-readable account of the failure.
    pub fn message(&self) -> String {
        match self {
            EvalError::Syntax => String::from_str("syntax error"),
            EvalError::Type => String::from_str("operand has the wrong type"),
            EvalError::Arity => String::from_str("too few operands"),
            EvalError::DivisionByZero => String::from_str("division by zero"),
            EvalError::Name(s) => s.clone().concat(", not in env"),
            EvalError::Depth => String::from_str("evaluation nested too deeply"),
        }
    }
}

} // verus!
