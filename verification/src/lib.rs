//! The runtime of a lexer: sources, the cursor of a lexer, the protocol by which
//! a token's transition function reports what it found, and adaptors over the
//! sequence of tokens that keep the lexer within reach.

pub mod callback;
pub mod error;
mod ext;
pub mod internal;
pub mod iter;
pub mod lexer;
pub mod source;

pub use crate::error::{Error, UnknownToken};
pub use crate::ext::LexerExt;
pub use crate::lexer::{Cursor, Lexer, Slot, Span};
pub use crate::source::Source;

use vstd::prelude::*;

verus! {

/// A token type that a [`Lexer`] can produce.
///
/// The heart of the trait is [`Logos::lex`], the transition function: it reads
/// ahead in the source, moves the end of the cursor over what it recognises and
/// reports what it found. It is written for a fixed grammar, by a generator or
/// by hand, and as a rule it is not verified: it drives the lexer through
/// [`LexerInternal`](crate::internal::LexerInternal), and the lexer relies on
/// what this trait states of it. Everything that is proved of a pull is proved
/// from the contract of `lex` alone.
///
/// A transition function can be verified too. It then says what it does in
/// [`Logos::scans`], and works on the fields of the lexer, which are public for
/// that reason: the methods of the lexer ask for an implementation of this
/// trait, and so cannot be called while one is being given.
pub trait Logos<'source>: Sized {
    /// The "extras" type, used to add state to a lexer.
    type Extras;

    /// The source type that tokens are lexed from.
    type Source: Source + ?Sized + 'source;

    /// The type used to report errors during lexing.
    type Error;

    /// Whether the transition function reports the end of input exactly when
    /// nothing is left of the source. A transition function that matches
    /// patterns against the bytes at the cursor does; one may also be written
    /// to end early, and a later pull may then find more input. Nothing is
    /// claimed unless an implementation says so.
    open spec fn ends_at_exhaustion() -> bool {
        false
    }

    /// What one run of the transition function may make of a lexer: `after` is
    /// what it may leave of `before`. This is the grammar of the token type,
    /// for the token type to say; nothing is claimed unless an implementation
    /// says so.
    open spec fn scans(before: Lexer<'source, Self>, after: Lexer<'source, Self>) -> bool {
        true
    }

    /// The transition function. It is entered with an empty span on a
    /// boundary, and has to leave in one of three ways: with a committed token
    /// or error, with the end of input, or, where a rescan is under way, with
    /// a skipped match that moved the cursor forward. Whichever it is, the
    /// source is the same afterwards, the cursor has only moved forward, and
    /// the source can be cut at both ends of the span.
    fn lex(lexer: &mut Lexer<'source, Self>)
        requires
            old(lexer).cursor.wf(),
            old(lexer).cursor.idle(),
        ensures
            Self::scans(*old(lexer), *final(lexer)),
            old(lexer).cursor.scanned_to(
                old(lexer).rescanning,
                &final(lexer).cursor,
                final(lexer).token,
            ),
            final(lexer).rescanning == old(lexer).rescanning,
            Self::ends_at_exhaustion() ==> old(lexer).cursor.ended_at_exhaustion(
                &final(lexer).cursor,
                final(lexer).token,
            ),
    ;

    /// Create a new [`Lexer`] for this token type.
    fn lexer(source: &'source Self::Source) -> (lexer: Lexer<'source, Self>) where
        Self::Extras: Default,

        ensures
            lexer.cursor == Cursor::new_spec(source),
            lexer.cursor.wf(),
            lexer.token is Unset,
            !lexer.rescanning,
            call_ensures(<Self::Extras as Default>::default, (), lexer.extras),
    {
        Lexer {
            cursor: Cursor::new(source),
            token: Slot::Unset,
            rescanning: false,
            extras: Default::default(),
        }
    }

    /// Create a new [`Lexer`] for this token type, using the provided `extras`
    /// value.
    fn lexer_with_extras(source: &'source Self::Source, extras: Self::Extras) -> (lexer: Lexer<
        'source,
        Self,
    >)
        ensures
            lexer.cursor == Cursor::new_spec(source),
            lexer.cursor.wf(),
            lexer.token is Unset,
            !lexer.rescanning,
            lexer.extras == extras,
    {
        Lexer { cursor: Cursor::new(source), token: Slot::Unset, rescanning: false, extras }
    }
}

/// Used within callbacks to instruct the lexer to skip a token match.
pub struct Skip;

/// A type that can be used within callbacks to either produce a field for a
/// token or skip a token match.
pub enum Filter<C> {
    /// Construct and emit a variant containing a value of type `C`.
    Accept(C),
    /// Skip this token match.
    Skip,
}

/// A predefined callback that unconditionally skips a token match.
#[inline(always)]
pub fn skip<'source, Token: Logos<'source>>(lexer: &mut Lexer<'source, Token>) -> (skip: Skip)
    ensures
        *final(lexer) == *old(lexer),
{
    Skip
}

} // verus!
