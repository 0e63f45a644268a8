use vstd::prelude::*;

use crate::parse_position::PositionRange;

verus! {

/// Why the characters of a document could not be split into tokens.
#[derive(Clone, Copy, Debug, PartialEq, Eq, Structural)]
pub enum TokenError {
    InvalidEscape,
    InvalidNumber,
    InvalidDice,
    UnterminatedString,
    UnexpectedCharacter,
    SlashIsNotValid,
}

/// A token error with where it happened.
#[derive(Clone, Debug)]
pub struct TokenErrorDetails {
    pub source_name: String,
    pub position: PositionRange,
    pub error: TokenError,
}

/// Why a document could not be interpolated.
#[derive(Clone, Debug)]
pub enum InterpolationError {
    ScanError(TokenError),
    ExpectedIdentifier(String),
    ExpectedCloseParen(String),
    ExpectedExpression(String),
    CantNegateString,
    CantNegateObject,
    CantMultiplyDice,
    CantMultiplyStrings,
    CantMultiplyObjects,
    CantDivideStrings,
    CantDivideByDice,
    CantDivideObjects,
    CantConcatenateNonStrings,
    CantAddObjects,
    CantSubtractStrings,
    CantSubtractObjects,
    StringIsAlreadyStringified,
    CantStringifyObjects,
    UnknownVariable,
    UnknownProperty,
    InvalidIndex,
    CantSignObject,
    CantSignString,
    EmptyStack,
    UnexpectedStructuredText,
    TextIsAlreadyItalic,
    TextIsAlreadyBold,
    TextIsNotBold,
    TextIsNotItalic,
    NumberOutOfRange,
    DivideByZero,
}

/// An interpolation error with the source name, the position, and optionally the whole text.
#[derive(Clone, Debug)]
pub struct InterpolationErrorDetails {
    pub error: InterpolationError,
    pub source_name: String,
    pub position: PositionRange,
    pub full_text: Option<String>,
}

impl InterpolationErrorDetails {
    /// The same error, carrying the whole source text.
    pub fn with_full_text(self, text: &str) -> (r: Self)
        ensures
            r.error == self.error,
            r.source_name@ == self.source_name@,
            r.position == self.position,
            r.full_text matches Some(t) && t@ == text@,
    {
        InterpolationErrorDetails {
            error: self.error,
            source_name: self.source_name,
            position: self.position,
            full_text: Some(text.to_owned()),
        }
    }

    /// The error's kind.
    pub fn kind(&self) -> (r: &InterpolationError)
        ensures
            *r == self.error,
    {
        &self.error
    }
}

impl InterpolationError {
    /// The error with a source name and position.
    pub fn details(self, source: &str, position: &PositionRange) -> (r: InterpolationErrorDetails)
        ensures
            r.error == self,
            r.source_name@ == source@,
            r.position == *position,
            r.full_text is None,
    {
        InterpolationErrorDetails {
            error: self,
            source_name: source.to_owned(),
            position: *position,
            full_text: None,
        }
    }
}

impl TokenErrorDetails {
    /// The interpolation error that a token error becomes.
    pub fn to_interpolation_error(&self) -> (r: InterpolationErrorDetails)
        ensures
            r.error == InterpolationError::ScanError(self.error),
            r.source_name@ == self.source_name@,
            r.position == self.position,
            r.full_text is None,
    {
        InterpolationErrorDetails {
            error: InterpolationError::ScanError(self.error),
            source_name: self.source_name.clone(),
            position: self.position,
            full_text: None,
        }
    }
}

} // verus!
