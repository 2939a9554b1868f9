use vstd::prelude::*;

verus! {

/// The user-facing failures of the pipeline: a byte no token starts with, a
/// token out of place, a name that resolves to nothing, and the semantic
/// checks of the typed IR build.
#[derive(Clone, Copy, Debug, PartialEq, Eq, Structural)]
pub enum CompileError {
    /// The lexer reached a byte that starts no token.
    InvalidCharacter,
    /// The parser met a token it cannot use at this point.
    UnexpectedToken,
    /// The parser needed another token and the stream was empty.
    UnexpectedEnd,
    /// An identifier that is neither a local variable nor a function.
    UnknownIdentifier,
    /// The two operands of a binary operation have different value types.
    TypeMismatch,
    /// The condition of an `if` is not of Boolean type.
    ExpectedBoolean,
    /// An operator the parser accepts but the typed IR does not lower.
    UnsupportedOperator,
}

impl CompileError {
    /// A short diagnostic text for each failure.
    pub fn message(&self) -> (r: &'static str)
        ensures r@.len() > 0,
    {
        let r = match *self {
            CompileError::InvalidCharacter => "cannot lex input",
            CompileError::UnexpectedToken => "unexpected token",
            CompileError::UnexpectedEnd => "expected a token, got nothing",
            CompileError::UnknownIdentifier => "cannot find variable",
            CompileError::TypeMismatch => "operand types differ",
            CompileError::ExpectedBoolean => "expected Boolean condition",
            CompileError::UnsupportedOperator => "operator is not supported",
        };
        proof {
            reveal_strlit("cannot lex input");
            reveal_strlit("unexpected token");
            reveal_strlit("expected a token, got nothing");
            reveal_strlit("cannot find variable");
            reveal_strlit("operand types differ");
            reveal_strlit("expected Boolean condition");
            reveal_strlit("operator is not supported");
        }
        r
    }
}

} // verus!
