//! What can go wrong while a layout is read or written.

use crate::value::{models, Value, ValueModel};
use vstd::prelude::*;

verus! {

/// A failure of the byte stream itself.
#[derive(Clone, Copy, Debug, PartialEq, Eq, Structural)]
pub enum IoFailure {
    /// Fewer bytes were left than the layout asked for.
    UnexpectedEof,
    /// A position was asked for that the stream cannot hold.
    InvalidSeek,
    /// A repetition count was negative or larger than any sequence can be.
    InvalidCount,
}

/// A misuse of the engine, as opposed to malformed data.
#[derive(Clone, Copy, Debug, PartialEq, Eq, Structural)]
pub enum Violation {
    /// The number of arguments passed differs from the number a type imports.
    ArityMismatch,
    /// An expression named a sibling that had not been produced yet.
    ForwardReference,
    /// An expression used an absent value and gave no fallback.
    AbsentOperand,
    /// An operand was not of the kind the operator works on.
    TypeMismatch,
    /// An integer did not fit where it had to go.
    Overflow,
    /// A value handed to the writer does not have the shape of its type.
    ShapeMismatch,
    /// A type was named that the schema does not hold, or that does not come
    /// before the type that names it.
    UnknownType,
    /// An integer field was declared with a width that is not of one to
    /// eight bytes.
    BadWidth,
}

/// A failure of a read or a write.
#[derive(Debug, PartialEq, Eq)]
pub enum Error {
    /// The bytes at `pos` are not the expected constant.
    BadMagic { pos: usize },
    /// An assertion of the scope that began at `pos` did not hold.
    AssertFail { pos: usize, message: String, payload: Vec<Value> },
    /// The byte stream failed.
    Io { underlying: IoFailure },
    /// No variant of a type parsed at `pos`, and none failed for a reason of
    /// its own.
    NoVariantMatch { pos: usize, errors: Vec<Error> },
    /// No variant of a type parsed at `pos`; one error per variant, in
    /// declaration order.
    EnumErrors { pos: usize, errors: Vec<Error> },
    /// The engine was misused.
    ContractViolation { description: Violation },
}

/// The mathematical model of an [`Error`].
pub enum ErrorModel {
    BadMagic { pos: nat },
    AssertFail { pos: nat, message: Seq<char>, payload: Seq<ValueModel> },
    Io { underlying: IoFailure },
    NoVariantMatch { pos: nat, errors: Seq<ErrorModel> },
    EnumErrors { pos: nat, errors: Seq<ErrorModel> },
    ContractViolation { description: Violation },
}

/// The model of an error, part by part.
pub open spec fn error_model(e: Error) -> ErrorModel
    decreases e,
{
    match e {
        Error::BadMagic { pos } => ErrorModel::BadMagic { pos: pos as nat },
        Error::AssertFail { pos, message, payload } => ErrorModel::AssertFail {
            pos: pos as nat,
            message: message@,
            payload: models(payload@),
        },
        Error::Io { underlying } => ErrorModel::Io { underlying },
        Error::NoVariantMatch { pos, errors } => ErrorModel::NoVariantMatch {
            pos: pos as nat,
            errors: Seq::new(
                errors@.len(),
                |k: int|
                    if 0 <= k < errors@.len() {
                        error_model(errors@[k])
                    } else {
                        ErrorModel::BadMagic { pos: 0 }
                    },
            ),
        },
        Error::EnumErrors { pos, errors } => ErrorModel::EnumErrors {
            pos: pos as nat,
            errors: Seq::new(
                errors@.len(),
                |k: int|
                    if 0 <= k < errors@.len() {
                        error_model(errors@[k])
                    } else {
                        ErrorModel::BadMagic { pos: 0 }
                    },
            ),
        },
        Error::ContractViolation { description } => ErrorModel::ContractViolation { description },
    }
}

impl View for Error {
    type V = ErrorModel;

    open spec fn view(&self) -> ErrorModel {
        error_model(*self)
    }
}

/// The models of a sequence of errors, item by item.
pub open spec fn error_models(items: Seq<Error>) -> Seq<ErrorModel> {
    Seq::new(items.len(), |k: int| items[k]@)
}

/// The model of an aggregate error is made of the models of its parts.
pub proof fn lemma_view_errors(pos: usize, errors: Vec<Error>)
    ensures
        (Error::NoVariantMatch { pos, errors })@ == (ErrorModel::NoVariantMatch {
            pos: pos as nat,
            errors: error_models(errors@),
        }),
        (Error::EnumErrors { pos, errors })@ == (ErrorModel::EnumErrors {
            pos: pos as nat,
            errors: error_models(errors@),
        }),
{
    let a = (Error::NoVariantMatch { pos, errors })@;
    let b = (Error::EnumErrors { pos, errors })@;
    assert(a->NoVariantMatch_errors =~= error_models(errors@));
}

impl ErrorModel {
    /// Whether this is the failure of a constant to match, which tells nothing
    /// of a variant but that it is not the one.
    pub open spec fn is_bad_magic(self) -> bool {
        self is BadMagic
    }
}

impl Error {
    /// A contract violation of the given kind.
    pub fn violation(description: Violation) -> (e: Error)
        ensures
            e@ == (ErrorModel::ContractViolation { description }),
    {
        Error::ContractViolation { description }
    }

    /// A stream failure of the given kind.
    pub fn io(underlying: IoFailure) -> (e: Error)
        ensures
            e@ == (ErrorModel::Io { underlying }),
    {
        Error::Io { underlying }
    }

    /// Whether this is the failure of a constant to match.
    pub fn is_bad_magic(&self) -> (b: bool)
        ensures
            b == self@.is_bad_magic(),
    {
        match self {
            Error::BadMagic { .. } => true,
            _ => false,
        }
    }

    /// The payload that the failing assertion was declared with, if this is a
    /// failed assertion.
    pub fn payload(&self) -> (r: Option<&Vec<Value>>)
        ensures
            match r {
                Some(p) => self@ is AssertFail && models(p@) == self@->AssertFail_payload,
                None => !(self@ is AssertFail),
            },
    {
        match self {
            Error::AssertFail { payload, .. } => Some(payload),
            _ => None,
        }
    }
}

impl Violation {
    /// What this violation is, in words.
    pub open spec fn text(self) -> Seq<char> {
        match self {
            Violation::ArityMismatch => "the number of arguments differs from the number imported"@,
            Violation::ForwardReference => "a sibling was named before it was produced"@,
            Violation::AbsentOperand => "an absent value was used without a fallback"@,
            Violation::TypeMismatch => "an operand is not of the kind the operator works on"@,
            Violation::Overflow => "an integer does not fit where it has to go"@,
            Violation::ShapeMismatch => "the value does not have the shape of its type"@,
            Violation::UnknownType => "the type is not one that may be named here"@,
            Violation::BadWidth => "the width of an integer is not of one to eight bytes"@,
        }
    }

    /// What this violation is, in words.
    pub fn description(&self) -> (r: &'static str)
        ensures
            r@ == self.text(),
    {
        match self {
            Violation::ArityMismatch => "the number of arguments differs from the number imported",
            Violation::ForwardReference => "a sibling was named before it was produced",
            Violation::AbsentOperand => "an absent value was used without a fallback",
            Violation::TypeMismatch => "an operand is not of the kind the operator works on",
            Violation::Overflow => "an integer does not fit where it has to go",
            Violation::ShapeMismatch => "the value does not have the shape of its type",
            Violation::UnknownType => "the type is not one that may be named here",
            Violation::BadWidth => "the width of an integer is not of one to eight bytes",
        }
    }
}

} // verus!
