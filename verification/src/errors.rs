use vstd::prelude::*;

verus! {

/// Why the evaluation of a program stopped.
#[derive(Clone, Copy, Debug, PartialEq, Eq, Structural)]
pub enum RuntimeError {
    /// A heap index has no slot.
    UnknownReference,
    /// No frame on the scope stack defines the name.
    UnresolvedIdentifier,
    /// The innermost frame already defines the name.
    DuplicateDeclaration,
    /// An operator was applied to operands it is not defined for.
    InvalidOperatorTypes,
    /// The condition of an `if` or a `while` is not a boolean.
    NonBooleanCondition,
    /// A property was looked up on a value that is neither object nor array.
    InvalidPropertyAccess,
    /// An array was indexed by something that is not a non-negative integer.
    InvalidIndex,
    /// An array was indexed at or beyond its length.
    IndexOutOfRange,
    /// A value that has no text form was stringified.
    Unstringifyable,
    /// A slot marked constant was assigned to.
    AssignmentToConstant,
    /// The left side of a declaration is not an identifier.
    InvalidDeclarationTarget,
    /// A property was assigned through a path with a missing segment.
    InvalidInsertionTarget,
    /// A function was called with the wrong number of arguments.
    ArityMismatch,
    /// A value that is no function was called.
    UncallableValue,
    /// An object has no such key.
    UnknownProperty,
    /// The left side of an assignment is neither identifier nor property access.
    InvalidAssignmentTarget,
    /// A node that is no statement stands where a statement is run.
    UnsupportedStatement,
    /// A node that has no value stands where a value is needed.
    UnsupportedExpression,
    /// `len` was applied to a value that is neither string nor array.
    NoLength,
    /// The first argument of `append` is not an array.
    InvalidAppendTarget,
    /// The host found no number in the text of a number literal.
    InvalidNumber,
    /// Every heap index has been issued.
    HeapExhausted,
    /// The evaluation went deeper, or looped longer, than the budget allows.
    BudgetExhausted,
}

/// Why a source text is not a program.
#[derive(Clone, Copy, Debug, PartialEq, Eq, Structural)]
pub enum SyntaxError {
    /// A character that starts no token.
    UnexpectedCharacter,
    /// A run of operator characters that spells no operator.
    InvalidOperator,
    /// A string literal without its closing quote.
    UnterminatedString,
    /// A block comment without its closing `*/`.
    UnterminatedComment,
    /// A number literal with more than one decimal point.
    InvalidNumber,
    /// A token that cannot stand where it was found.
    UnexpectedToken,
    /// A keyword that starts no statement.
    UnknownKeyword,
    /// A statement stands where only an expression is allowed.
    StatementNotAllowed,
    /// A punctuation mark was required and something else was found.
    ExpectedPunctuation,
    /// An identifier was required and something else was found.
    ExpectedIdentifier,
    /// `let` or `const` is not followed by an assignment.
    ExpectedAssignment,
    /// The source nests deeper than the parser's limit.
    NestingTooDeep,
}

/// The exit code of a process that was given a source text that is no
/// program: 10 and up, one code for each error.
pub open spec fn syntax_exit_code(error: SyntaxError) -> i32 {
    match error {
        SyntaxError::UnexpectedCharacter => 10,
        SyntaxError::InvalidOperator => 11,
        SyntaxError::UnterminatedString => 12,
        SyntaxError::UnterminatedComment => 13,
        SyntaxError::InvalidNumber => 14,
        SyntaxError::UnexpectedToken => 15,
        SyntaxError::UnknownKeyword => 16,
        SyntaxError::StatementNotAllowed => 17,
        SyntaxError::ExpectedPunctuation => 18,
        SyntaxError::ExpectedIdentifier => 19,
        SyntaxError::ExpectedAssignment => 20,
        SyntaxError::NestingTooDeep => 21,
    }
}

/// The exit code of a process whose program stopped with an error: 30 and
/// up, one code for each error.
pub open spec fn runtime_exit_code(error: RuntimeError) -> i32 {
    match error {
        RuntimeError::UnknownReference => 30,
        RuntimeError::UnresolvedIdentifier => 31,
        RuntimeError::DuplicateDeclaration => 32,
        RuntimeError::InvalidOperatorTypes => 33,
        RuntimeError::NonBooleanCondition => 34,
        RuntimeError::InvalidPropertyAccess => 35,
        RuntimeError::InvalidIndex => 36,
        RuntimeError::IndexOutOfRange => 37,
        RuntimeError::Unstringifyable => 38,
        RuntimeError::AssignmentToConstant => 39,
        RuntimeError::InvalidDeclarationTarget => 40,
        RuntimeError::InvalidInsertionTarget => 41,
        RuntimeError::ArityMismatch => 42,
        RuntimeError::UncallableValue => 43,
        RuntimeError::UnknownProperty => 44,
        RuntimeError::InvalidAssignmentTarget => 45,
        RuntimeError::UnsupportedStatement => 46,
        RuntimeError::UnsupportedExpression => 47,
        RuntimeError::NoLength => 48,
        RuntimeError::InvalidAppendTarget => 49,
        RuntimeError::InvalidNumber => 50,
        RuntimeError::HeapExhausted => 51,
        RuntimeError::BudgetExhausted => 52,
    }
}

/// Two errors have the same exit code only if they are the same error; no
/// error has the exit code of success, and no error in a source text has
/// the exit code of an error in a run.
pub proof fn lemma_exit_codes_are_distinct()
    ensures
        forall|a: SyntaxError, b: SyntaxError|
            syntax_exit_code(a) == syntax_exit_code(b) ==> a == b,
        forall|a: RuntimeError, b: RuntimeError|
            runtime_exit_code(a) == runtime_exit_code(b) ==> a == b,
        forall|a: SyntaxError, b: RuntimeError| syntax_exit_code(a) != runtime_exit_code(b),
        forall|a: SyntaxError| 10 <= #[trigger] syntax_exit_code(a) <= 21,
        forall|b: RuntimeError| 30 <= #[trigger] runtime_exit_code(b) <= 52,
{
}

impl SyntaxError {
    /// The exit code for this error.
    pub fn exit_code(&self) -> (code: i32)
        ensures
            code == syntax_exit_code(*self),
            10 <= code <= 21,
    {
        match self {
            SyntaxError::UnexpectedCharacter => 10,
            SyntaxError::InvalidOperator => 11,
            SyntaxError::UnterminatedString => 12,
            SyntaxError::UnterminatedComment => 13,
            SyntaxError::InvalidNumber => 14,
            SyntaxError::UnexpectedToken => 15,
            SyntaxError::UnknownKeyword => 16,
            SyntaxError::StatementNotAllowed => 17,
            SyntaxError::ExpectedPunctuation => 18,
            SyntaxError::ExpectedIdentifier => 19,
            SyntaxError::ExpectedAssignment => 20,
            SyntaxError::NestingTooDeep => 21,
        }
    }
}

impl RuntimeError {
    /// The exit code for this error.
    pub fn exit_code(&self) -> (code: i32)
        ensures
            code == runtime_exit_code(*self),
            30 <= code <= 52,
    {
        match self {
            RuntimeError::UnknownReference => 30,
            RuntimeError::UnresolvedIdentifier => 31,
            RuntimeError::DuplicateDeclaration => 32,
            RuntimeError::InvalidOperatorTypes => 33,
            RuntimeError::NonBooleanCondition => 34,
            RuntimeError::InvalidPropertyAccess => 35,
            RuntimeError::InvalidIndex => 36,
            RuntimeError::IndexOutOfRange => 37,
            RuntimeError::Unstringifyable => 38,
            RuntimeError::AssignmentToConstant => 39,
            RuntimeError::InvalidDeclarationTarget => 40,
            RuntimeError::InvalidInsertionTarget => 41,
            RuntimeError::ArityMismatch => 42,
            RuntimeError::UncallableValue => 43,
            RuntimeError::UnknownProperty => 44,
            RuntimeError::InvalidAssignmentTarget => 45,
            RuntimeError::UnsupportedStatement => 46,
            RuntimeError::UnsupportedExpression => 47,
            RuntimeError::NoLength => 48,
            RuntimeError::InvalidAppendTarget => 49,
            RuntimeError::InvalidNumber => 50,
            RuntimeError::HeapExhausted => 51,
            RuntimeError::BudgetExhausted => 52,
        }
    }
}

} // verus!
