//! The lexer itself: a cursor over a source, the slot that holds what the last
//! scan produced, and the user's extras.

use crate::error::Error;
use crate::iter::MapWithLexer;
use crate::source::Source;
use crate::Logos;
use vstd::prelude::*;

verus! {

/// A byte range in the source.
pub type Span = core::ops::Range<usize>;

/// Where a lexer stands in its source: the source, and the two byte offsets
/// that delimit the current token.
pub struct Cursor<'source, S: Source + ?Sized> {
    /// The source that is read from. It never changes while a lexer lives.
    pub source: &'source S,
    /// The offset at which the current token starts.
    pub token_start: usize,
    /// The offset just behind the current token.
    pub token_end: usize,
}

impl<'source, S: Source + ?Sized> Cursor<'source, S> {
    /// The token starts on a boundary and ends within the source. This holds
    /// at every moment, also in the middle of a scan.
    pub open spec fn in_bounds(&self) -> bool {
        &&& self.token_start <= self.token_end <= self.source.content().len()
        &&& self.source.boundary(self.token_start as int)
    }

    /// The cursor is within bounds and the token also ends on a boundary, so
    /// the source can be cut at both offsets. This holds whenever no scan is
    /// under way.
    pub open spec fn wf(&self) -> bool {
        &&& self.in_bounds()
        &&& self.source.boundary(self.token_end as int)
    }

    /// The current token is empty: the cursor waits at an offset.
    pub open spec fn idle(&self) -> bool {
        self.token_start == self.token_end
    }

    /// Nothing is left of the source behind the current token.
    pub open spec fn exhausted(&self) -> bool {
        self.token_end == self.source.content().len()
    }

    /// The range of the current token.
    pub open spec fn span(&self) -> Span {
        Span { start: self.token_start, end: self.token_end }
    }

    /// The bytes of the current token.
    pub open spec fn token_content(&self) -> Seq<u8> {
        self.source.content().subrange(self.token_start as int, self.token_end as int)
    }

    /// The bytes of the source behind the current token.
    pub open spec fn remainder_content(&self) -> Seq<u8> {
        self.source.content().subrange(self.token_end as int, self.source.content().len() as int)
    }

    /// `later` is a cursor over the same source whose token starts at or
    /// behind the end of this one's.
    pub open spec fn precedes(&self, later: &Self) -> bool {
        &&& later.source == self.source
        &&& self.token_end <= later.token_start
    }

    /// What a scan that is entered at this cursor has to leave behind: the
    /// cursor `after`, over the same source, further on and fit to be cut at
    /// both ends; and in `slot` a result or the end of input. The slot may be
    /// empty only where a rescan is under way: that stands for a skipped
    /// match, which has to have moved the cursor on and discarded its span.
    pub open spec fn scanned_to<T, E>(&self, rescanning: bool, after: &Self, slot: Slot<T, E>) -> bool {
        &&& after.wf()
        &&& self.precedes(after)
        &&& slot is Unset ==> {
            &&& rescanning
            &&& after.idle()
            &&& self.token_end < after.token_end
        }
    }

    /// A scan that is entered at this cursor and leaves `after` and `slot`
    /// has reported the end of input exactly at exhaustion: it has if nothing
    /// was left, and if it has, nothing is left.
    pub open spec fn ended_at_exhaustion<T, E>(&self, after: &Self, slot: Slot<T, E>) -> bool {
        &&& self.exhausted() ==> slot is Ended
        &&& slot is Ended ==> after.exhausted()
    }

    /// The cursor after the current token has been discarded.
    pub open spec fn past_token(self) -> Self {
        Cursor { token_start: self.token_end, ..self }
    }

    /// The cursor with its end moved to `token_end`.
    pub open spec fn ending_at(self, token_end: int) -> Self {
        Cursor { token_end: token_end as usize, ..self }
    }

    /// The cursor that waits at the start of `source`.
    pub open spec fn new_spec(source: &'source S) -> Self {
        Cursor { source, token_start: 0, token_end: 0 }
    }

    /// A cursor that waits at the start of `source`.
    pub fn new(source: &'source S) -> (cursor: Self)
        ensures
            cursor == Self::new_spec(source),
            cursor.wf(),
            cursor.idle(),
    {
        proof {
            source.lemma_boundaries();
        }
        Cursor { source, token_start: 0, token_end: 0 }
    }
}

impl<'source, S: Source + ?Sized> Clone for Cursor<'source, S> {
    fn clone(&self) -> (cloned: Self)
        ensures
            cloned == *self,
    {
        Cursor { source: self.source, token_start: self.token_start, token_end: self.token_end }
    }
}

impl<'source, S: Source + ?Sized> Copy for Cursor<'source, S> {

}

/// What the last scan left behind.
#[derive(Debug, PartialEq, Eq)]
pub enum Slot<T, E> {
    /// Nothing has been committed since the slot was last emptied.
    Unset,
    /// A token or an error has been committed.
    Committed(Result<T, E>),
    /// The scan found no more input.
    Ended,
}

impl<T, E> Slot<T, E> {
    /// The item that a pull hands out for this slot: the committed result, if
    /// there is one.
    pub open spec fn yielded(self) -> Option<Result<T, E>> {
        match self {
            Slot::Committed(result) => Some(result),
            _ => None,
        }
    }

    /// Whether nothing has been committed.
    pub fn is_unset(&self) -> (unset: bool)
        ensures
            unset == (*self is Unset),
    {
        match self {
            Slot::Unset => true,
            _ => false,
        }
    }

    /// Empties the slot and hands out what it held.
    pub fn take(&mut self) -> (item: Option<Result<T, E>>)
        ensures
            item == old(self).yielded(),
            *final(self) is Unset,
    {
        let mut taken = Slot::Unset;
        core::mem::swap(self, &mut taken);
        match taken {
            Slot::Committed(result) => Some(result),
            _ => None,
        }
    }
}

impl<T: Clone, E: Clone> Clone for Slot<T, E> {
    /// The clone is in the same state, and holds a clone of what is committed.
    fn clone(&self) -> (cloned: Self)
        ensures
            match *self {
                Slot::Unset => cloned is Unset,
                Slot::Ended => cloned is Ended,
                Slot::Committed(Ok(token)) => cloned matches Slot::Committed(Ok(copy))
                    && call_ensures(T::clone, (&token,), copy),
                Slot::Committed(Err(error)) => cloned matches Slot::Committed(Err(copy))
                    && call_ensures(E::clone, (&error,), copy),
            },
    {
        match self {
            Slot::Unset => Slot::Unset,
            Slot::Ended => Slot::Ended,
            Slot::Committed(Ok(token)) => Slot::Committed(Ok(token.clone())),
            Slot::Committed(Err(error)) => Slot::Committed(Err(error.clone())),
        }
    }
}

/// What can be at rest. A lexer is at rest between two scans: its cursor can be
/// cut at both ends and no rescan is under way.
pub trait AtRest {
    /// Whether the value is at rest.
    spec fn at_rest(&self) -> bool;
}

impl<'source, Token: Logos<'source>> AtRest for Lexer<'source, Token> {
    open spec fn at_rest(&self) -> bool {
        self.wf()
    }
}

/// A result with the span of its token beside the token.
pub open spec fn with_span<T, E>(result: Result<T, E>, span: Span) -> Result<(T, Span), E> {
    match result {
        Ok(token) => Ok((token, span)),
        Err(error) => Err(error),
    }
}

/// A `Lexer` reads through a source and produces tokens with the transition
/// function of its token type, [`Logos::lex`].
pub struct Lexer<'source, Token: Logos<'source>> {
    /// Where the lexer stands in its source.
    pub cursor: Cursor<'source, Token::Source>,
    /// What the last scan left behind.
    pub token: Slot<Token, Token::Error>,
    /// Whether a rescan after a skipped match is under way. A skip that is met
    /// while this is set goes back to the loop that is already running.
    pub rescanning: bool,
    /// The "extras" associated with `Token`.
    pub extras: Token::Extras,
}

impl<'source, Token: Logos<'source>> Lexer<'source, Token> {
    /// The lexer is at rest: its cursor can be cut at both ends and no rescan
    /// is under way.
    pub open spec fn wf(&self) -> bool {
        &&& self.cursor.wf()
        &&& !self.rescanning
    }

    /// The lexer as a pull hands it to the transition function: the span of
    /// the last token discarded, the slot empty.
    pub open spec fn entering(self) -> Self {
        Lexer { cursor: self.cursor.past_token(), token: Slot::Unset, ..self }
    }

    /// `after` is what one run of the transition function may leave of this
    /// lexer: all that [`Logos::lex`] promises.
    pub open spec fn scanned(&self, after: &Self) -> bool {
        &&& Token::scans(*self, *after)
        &&& self.cursor.scanned_to(self.rescanning, &after.cursor, after.token)
        &&& after.rescanning == self.rescanning
        &&& Token::ends_at_exhaustion() ==> self.cursor.ended_at_exhaustion(
            &after.cursor,
            after.token,
        )
    }

    /// Create a new `Lexer`.
    pub fn new(source: &'source Token::Source) -> (lexer: Self) where Token::Extras: Default
        ensures
            lexer.cursor == Cursor::new_spec(source),
            lexer.token is Unset,
            lexer.wf(),
            call_ensures(<Token::Extras as Default>::default, (), lexer.extras),
    {
        Self::with_extras(source, Default::default())
    }

    /// Create a new `Lexer` with the provided extras.
    pub fn with_extras(source: &'source Token::Source, extras: Token::Extras) -> (lexer: Self)
        ensures
            lexer.cursor == Cursor::new_spec(source),
            lexer.token is Unset,
            lexer.extras == extras,
            lexer.wf(),
    {
        Lexer { cursor: Cursor::new(source), token: Slot::Unset, rescanning: false, extras }
    }

    /// Wrap the lexer in a sequence that pairs tokens with their source
    /// positions.
    ///
    /// This is [`map_with_lexer`](crate::LexerExt::map_with_lexer) with a
    /// function that puts the lexer's span beside each token and leaves errors
    /// as they are.
    #[inline]
    pub fn spanned(self) -> (spanned: MapWithLexer<
        Self,
        impl Fn(Result<Token, Token::Error>, &Lexer<'source, Token>) -> Result<
            (Token, Span),
            Token::Error,
        >,
    >)
        ensures
            spanned.inner == self,
            forall|result: Result<Token, Token::Error>, lexer: &Lexer<'source, Token>|
                call_requires(spanned.op, (result, lexer)),
            forall|
                result: Result<Token, Token::Error>,
                lexer: &Lexer<'source, Token>,
                paired: Result<(Token, Span), Token::Error>,
            |
                call_ensures(spanned.op, (result, lexer), paired) ==> paired == with_span(
                    result,
                    lexer.cursor.span(),
                ),
    {
        let pair = |result: Result<Token, Token::Error>, lexer: &Lexer<'source, Token>| -> (paired:
            Result<(Token, Span), Token::Error>)
            ensures
                paired == with_span(result, lexer.cursor.span()),
            {
                match result {
                    Ok(token) => Ok((token, lexer.span())),
                    Err(error) => Err(error),
                }
            };
        MapWithLexer::new(self, pair)
    }

    /// The source position of the current token, under its older name. See
    /// [`Lexer::span`].
    #[inline]
    pub fn range(&self) -> (span: Span)
        ensures
            span == self.cursor.span(),
    {
        self.span()
    }

    /// The source position of the current token.
    #[inline]
    pub fn span(&self) -> (span: Span)
        ensures
            span == self.cursor.span(),
    {
        self.cursor.token_start..self.cursor.token_end
    }

    /// The source that tokens are being read from.
    #[inline]
    pub fn source(&self) -> (source: &'source Token::Source)
        ensures
            source == self.cursor.source,
    {
        self.cursor.source
    }

    /// A slice containing the current token. It is cut out of the source, not
    /// copied, and holds the source's bytes within the span.
    #[inline]
    pub fn slice(&self) -> (slice: &'source <Token::Source as Source>::Slice)
        requires
            self.cursor.wf(),
        ensures
            <Token::Source as Source>::slice_content(slice) == self.cursor.token_content(),
    {
        self.cursor.source.slice_unchecked(self.span())
    }

    /// A slice containing the remaining source: what lies behind the current
    /// token.
    #[inline]
    pub fn remainder(&self) -> (slice: &'source <Token::Source as Source>::Slice)
        requires
            self.cursor.wf(),
        ensures
            <Token::Source as Source>::slice_content(slice) == self.cursor.remainder_content(),
    {
        proof {
            self.cursor.source.lemma_boundaries();
        }
        self.cursor.source.slice_unchecked(self.cursor.token_end..self.cursor.source.len())
    }

    /// Create a new error value representing a generic "unknown token" error,
    /// built by the error type from the lexer as it stands.
    #[inline]
    pub fn error(&self) -> (error: Token::Error) where Token::Error: Error<'source, Token>
        ensures
            call_ensures(<Token::Error as Error<'source, Token>>::unknown_token, (self,), error),
    {
        Token::Error::unknown_token(self)
    }

    /// Turn this lexer into a lexer for a new token type.
    ///
    /// The new lexer points at the same span of the same source. Whatever the
    /// old one had committed is gone.
    pub fn morph<Token2>(self) -> (morphed: Lexer<'source, Token2>) where
        Token2: Logos<'source, Source = Token::Source>,
        Token::Extras: Into<Token2::Extras>,

        ensures
            morphed.cursor == self.cursor,
            morphed.token is Unset,
            !morphed.rescanning,
            self.cursor.wf() ==> morphed.wf(),
            call_ensures(
                <Token::Extras as Into<Token2::Extras>>::into,
                (self.extras,),
                morphed.extras,
            ),
    {
        Lexer {
            cursor: self.cursor,
            token: Slot::Unset,
            rescanning: false,
            extras: self.extras.into(),
        }
    }

    /// Bump the current span by `n` bytes. The new end has to be a boundary of
    /// the source: for `&str`, within the text and not inside a character; for
    /// `&[u8]`, within the bytes.
    pub fn bump(&mut self, n: usize)
        requires
            old(self).cursor.source.boundary(old(self).cursor.token_end + n),
        ensures
            *final(self) == (Lexer {
                cursor: old(self).cursor.ending_at(old(self).cursor.token_end + n),
                ..*old(self)
            }),
            final(self).cursor.token_end == old(self).cursor.token_end + n,
            old(self).wf() ==> final(self).wf(),
    {
        proof {
            self.cursor.source.lemma_boundaries();
        }
        let len = self.cursor.source.len();
        assert(self.cursor.token_end + n <= len);
        self.cursor.token_end += n;
    }
}

/// A lexer over text that is at rest never splits a character: the bytes of
/// its slice and the bytes of its remainder are whole characters.
pub proof fn lemma_text_slices_hold_whole_characters<'source, Token>(lexer: Lexer<'source, Token>) where
    Token: Logos<'source, Source = str>,

    requires
        lexer.cursor.wf(),
    ensures
        vstd::utf8::valid_utf8(lexer.cursor.token_content()),
        vstd::utf8::valid_utf8(lexer.cursor.remainder_content()),
{
    crate::source::lemma_text_is_cut_between_characters(
        lexer.cursor.source,
        lexer.cursor.token_start as int,
        lexer.cursor.token_end as int,
    );
}

/// The slice of a lexer is the part of the source that its span delimits, byte
/// for byte; so two slices taken from a lexer that has not changed in between
/// hold the same bytes.
pub proof fn lemma_slice_is_the_source_within_the_span<'source, Token>(
    lexer: Lexer<'source, Token>,
    first: &<Token::Source as Source>::Slice,
    second: &<Token::Source as Source>::Slice,
) where Token: Logos<'source>
    requires
        lexer.cursor.wf(),
        <Token::Source as Source>::slice_content(first) == lexer.cursor.token_content(),
        <Token::Source as Source>::slice_content(second) == lexer.cursor.token_content(),
    ensures
        <Token::Source as Source>::slice_content(first).len() == lexer.cursor.span().end
            - lexer.cursor.span().start,
        forall|i: int|
            0 <= i < lexer.cursor.span().end - lexer.cursor.span().start
                ==> <Token::Source as Source>::slice_content(first)[i]
                == lexer.cursor.source.content()[lexer.cursor.span().start + i],
        <Token::Source as Source>::slice_content(first) == <Token::Source as Source>::slice_content(
            second,
        ),
{
}

impl<'source, Token> Clone for Lexer<'source, Token> where
    Token: Logos<'source> + Clone,
    Token::Extras: Clone,
    Token::Error: Clone,
 {
    /// The clone stands where this lexer stands, over the same source, with
    /// clones of the extras and of what is committed.
    fn clone(&self) -> (cloned: Self)
        ensures
            cloned.cursor == self.cursor,
            cloned.rescanning == self.rescanning,
            call_ensures(<Token::Extras as Clone>::clone, (&self.extras,), cloned.extras),
            call_ensures(
                <Slot<Token, Token::Error> as Clone>::clone,
                (&self.token,),
                cloned.token,
            ),
    {
        Lexer {
            cursor: self.cursor,
            token: self.token.clone(),
            rescanning: self.rescanning,
            extras: self.extras.clone(),
        }
    }
}

} // verus!
