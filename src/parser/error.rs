use vstd::prelude::*;

use super::constants::Keyword;

verus! {

/// What went wrong in a statement.
#[derive(Debug, Clone, Copy, PartialEq, Eq, Structural)]
pub enum ErrorKind {
    /// A quoted string or an array has no closing delimiter.
    UnterminatedLiteral,
    /// A required keyword or symbol is not there.
    UnexpectedToken,
    /// The statement does not start with DATABASE, TABLE, INSERT or READ.
    UnknownStatement,
    /// A field declaration does not start with a datatype.
    ExpectedDatatype,
    /// MODE is not followed by a mode.
    ExpectedMode,
    /// A constraint keyword is missing.
    ExpectedConstraint,
    /// A name is empty where one is required.
    MissingIdentifier,
    /// A field name holds no letter.
    DigitsOnlyFieldName,
    /// An operator stands where a value or a name is expected.
    NotAnIdentifier,
    /// An option of a numeric datatype is not an integer that fits in 32 bits.
    NotAnInteger,
    /// Two values follow each other with no operator between them.
    IdentifierAfterIdentifier,
}

/// A failed statement: the kind of failure, the character offset of the
/// token that caused it (for a WHERE condition that cannot be built, the
/// offset where the condition starts), and the keyword that was required
/// there when one was.  `Parser::found_token` names the token at the offset.
#[derive(Debug, Clone, Copy, PartialEq, Eq, Structural)]
pub struct ParseError {
    pub kind: ErrorKind,
    pub offset: usize,
    pub expected: Option<Keyword>,
}

/// The description of each kind of failure.
pub open spec fn message_text(kind: ErrorKind) -> Seq<char> {
    match kind {
        ErrorKind::UnterminatedLiteral => "Unterminated string or array literal."@,
        ErrorKind::UnexpectedToken => "Unexpected token found."@,
        ErrorKind::UnknownStatement => "Invalid token found at the start of the statement."@,
        ErrorKind::ExpectedDatatype => "Expected a Datatype."@,
        ErrorKind::ExpectedMode => "Expected a mode."@,
        ErrorKind::ExpectedConstraint => "Expected a constraint."@,
        ErrorKind::MissingIdentifier => "Expected an identifier."@,
        ErrorKind::DigitsOnlyFieldName => "Field name cannot be only digits."@,
        ErrorKind::NotAnIdentifier => "Given token is not an identifier."@,
        ErrorKind::NotAnInteger => "Expected an integer literal."@,
        ErrorKind::IdentifierAfterIdentifier => "Found identifier after identifier."@,
    }
}

impl ParseError {
    /// A human-readable description of the failure.
    pub fn message(&self) -> (r: String)
        ensures
            r@ == message_text(self.kind),
    {
        match self.kind {
            ErrorKind::UnterminatedLiteral => String::from_str("Unterminated string or array literal."),
            ErrorKind::UnexpectedToken => String::from_str("Unexpected token found."),
            ErrorKind::UnknownStatement => String::from_str("Invalid token found at the start of the statement."),
            ErrorKind::ExpectedDatatype => String::from_str("Expected a Datatype."),
            ErrorKind::ExpectedMode => String::from_str("Expected a mode."),
            ErrorKind::ExpectedConstraint => String::from_str("Expected a constraint."),
            ErrorKind::MissingIdentifier => String::from_str("Expected an identifier."),
            ErrorKind::DigitsOnlyFieldName => String::from_str("Field name cannot be only digits."),
            ErrorKind::NotAnIdentifier => String::from_str("Given token is not an identifier."),
            ErrorKind::NotAnInteger => String::from_str("Expected an integer literal."),
            ErrorKind::IdentifierAfterIdentifier => String::from_str("Found identifier after identifier."),
        }
    }
}

} // verus!
