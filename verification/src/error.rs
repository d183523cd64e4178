//! Errors that lexing reports.

use crate::lexer::Lexer;
use crate::Logos;
use vstd::prelude::*;

verus! {

/// A trait for representing errors that occur during lexing.
///
/// The error type of a token type implements it to say how the error for an
/// unrecognised token is made. The lexer is handed over as it stands at the
/// moment of failure, so the error can carry its position.
pub trait Error<'source, T>: Sized where T: Logos<'source> {
    /// Creates an error value representing an unknown token.
    fn unknown_token(lex: &Lexer<'source, T>) -> Self;
}

/// The primary error case when lexing, and the default error type.
///
/// It carries no information of its own, not even a span: it says that an
/// unrecognised token was found, and nothing more.
#[derive(Debug, Default, Clone, Copy, PartialOrd, Ord, PartialEq, Eq, Hash, Structural)]
pub struct UnknownToken;

impl<'source, T> Error<'source, T> for UnknownToken where T: Logos<'source> {
    #[inline(always)]
    fn unknown_token(_lex: &Lexer<'source, T>) -> (error: Self)
        ensures
            error == UnknownToken,
    {
        UnknownToken
    }
}

impl UnknownToken {
    /// The message that describes the error.
    pub fn to_string(&self) -> (message: String)
        ensures
            message@ == "unknown token encountered while lexing"@,
    {
        "unknown token encountered while lexing".to_string()
    }
}

} // verus!
