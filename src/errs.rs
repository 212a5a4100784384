use vstd::prelude::*;

verus! {

/// A problem found in a program; each carries the line it was found on.
#[derive(Debug, Clone)]
pub enum VarError {
    /// A variable was used but not declared.
    UndeclaredVariable { name: String, line: usize },
    /// An initializer does not have the shape that the declared type asks for.
    TypeMismatch { var_name: String, expected: String, found: String, line: usize },
    /// A literal could not be read as the declared type.
    VarTypeMisMatch { var_name: String, expected: String, value: String, line: usize },
    /// An assignment to an immutable variable.
    ImmutableAssignment { name: String, line: usize },
    /// `?` not followed by `(`.
    MissingConditionOpenParen { line: usize },
    /// A condition without its `)`.
    MissingConditionCloseParen { line: usize },
    /// A condition not followed by `{`.
    MissingBlockOpenBrace { line: usize },
    /// A block without its `}`.
    UnmatchedClosingBrace { line: usize },
    /// A condition that does not parse.
    InvalidCondition { details: String, line: usize },
}

} // verus!

verus! {

/// The mathematical value of an error.
pub enum ErrV {
    UndeclaredVariable { name: Seq<char>, line: usize },
    TypeMismatch { var_name: Seq<char>, expected: Seq<char>, found: Seq<char>, line: usize },
    VarTypeMisMatch { var_name: Seq<char>, expected: Seq<char>, value: Seq<char>, line: usize },
    ImmutableAssignment { name: Seq<char>, line: usize },
    MissingConditionOpenParen { line: usize },
    MissingConditionCloseParen { line: usize },
    MissingBlockOpenBrace { line: usize },
    UnmatchedClosingBrace { line: usize },
    InvalidCondition { details: Seq<char>, line: usize },
}

pub open spec fn err_view(e: VarError) -> ErrV {
    match e {
        VarError::UndeclaredVariable { name, line } => ErrV::UndeclaredVariable { name: name@, line },
        VarError::TypeMismatch { var_name, expected, found, line } => ErrV::TypeMismatch {
            var_name: var_name@,
            expected: expected@,
            found: found@,
            line,
        },
        VarError::VarTypeMisMatch { var_name, expected, value, line } => ErrV::VarTypeMisMatch {
            var_name: var_name@,
            expected: expected@,
            value: value@,
            line,
        },
        VarError::ImmutableAssignment { name, line } => ErrV::ImmutableAssignment { name: name@, line },
        VarError::MissingConditionOpenParen { line } => ErrV::MissingConditionOpenParen { line },
        VarError::MissingConditionCloseParen { line } => ErrV::MissingConditionCloseParen { line },
        VarError::MissingBlockOpenBrace { line } => ErrV::MissingBlockOpenBrace { line },
        VarError::UnmatchedClosingBrace { line } => ErrV::UnmatchedClosingBrace { line },
        VarError::InvalidCondition { details, line } => ErrV::InvalidCondition {
            details: details@,
            line,
        },
    }
}

} // verus!
