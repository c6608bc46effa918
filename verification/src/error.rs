//! The closed error taxonomy of the language. Every error aborts the whole
//! interpretation run: the first one raised during lowering or evaluation is
//! the only one surfaced.

use vstd::prelude::*;

verus! {

#[derive(Debug, PartialEq)]
pub enum ValyrianError {
    /// A malformed or unrecognized construct, with the offending fragment.
    ParseError(String),
    /// A failure of the run itself, such as an exhausted execution budget.
    RuntimeError(String),
    /// A name read or assigned without a prior declaration.
    UndefinedVariable(String),
    /// A call to a function that was never declared.
    UndefinedFunction(String),
    /// An expected value kind against the kind actually found.
    TypeError { expected: String, found: String },
    /// A division whose right operand is zero.
    DivisionByZero,
    /// A failed read or write, with the underlying failure description.
    IoError(String),
    /// A construct the grammar accepted but the lowering stage refuses.
    SyntaxError(String),
    /// A call whose argument count differs from the parameter count.
    ArgumentMismatch,
    /// An operator applied to operand kinds it is not defined for.
    InvalidOperation { op: String, left_type: String, right_type: String },
}

/// The ghost counterpart of `ValyrianError`.
pub enum ErrM {
    Parse(Seq<char>),
    Runtime(Seq<char>),
    UndefVar(Seq<char>),
    UndefFn(Seq<char>),
    Type { expected: Seq<char>, found: Seq<char> },
    DivZero,
    Io(Seq<char>),
    Syntax(Seq<char>),
    ArgMismatch,
    InvalidOp { op: Seq<char>, left_type: Seq<char>, right_type: Seq<char> },
}

pub open spec fn err_view(e: ValyrianError) -> ErrM {
    match e {
        ValyrianError::ParseError(s) => ErrM::Parse(s@),
        ValyrianError::RuntimeError(s) => ErrM::Runtime(s@),
        ValyrianError::UndefinedVariable(s) => ErrM::UndefVar(s@),
        ValyrianError::UndefinedFunction(s) => ErrM::UndefFn(s@),
        ValyrianError::TypeError { expected, found } => ErrM::Type {
            expected: expected@,
            found: found@,
        },
        ValyrianError::DivisionByZero => ErrM::DivZero,
        ValyrianError::IoError(s) => ErrM::Io(s@),
        ValyrianError::SyntaxError(s) => ErrM::Syntax(s@),
        ValyrianError::ArgumentMismatch => ErrM::ArgMismatch,
        ValyrianError::InvalidOperation { op, left_type, right_type } => ErrM::InvalidOp {
            op: op@,
            left_type: left_type@,
            right_type: right_type@,
        },
    }
}

impl View for ValyrianError {
    type V = ErrM;

    open spec fn view(&self) -> ErrM {
        err_view(*self)
    }
}

impl ValyrianError {
    /// A type mismatch, naming the expected and the found value kind.
    pub fn type_error(expected: &str, found: &str) -> (r: Self)
        ensures
            r@ == (ErrM::Type { expected: expected@, found: found@ }),
    {
        ValyrianError::TypeError { expected: expected.to_owned(), found: found.to_owned() }
    }

    /// An operator applied to operand kinds it is not defined for.
    pub fn invalid_operation(op: &str, left_type: &str, right_type: &str) -> (r: Self)
        ensures
            r@ == (ErrM::InvalidOp {
                op: op@,
                left_type: left_type@,
                right_type: right_type@,
            }),
    {
        ValyrianError::InvalidOperation {
            op: op.to_owned(),
            left_type: left_type.to_owned(),
            right_type: right_type.to_owned(),
        }
    }
}

} // verus!
