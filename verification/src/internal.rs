//! The driver: what a transition function does to a lexer while it scans.
//!
//! A transition function looks ahead with the `read` and `test` methods, moves
//! the end of the cursor with [`bump_unchecked`](LexerInternal::bump_unchecked),
//! and finishes with exactly one of [`apply`](LexerInternal::apply),
//! [`set`](LexerInternal::set), [`error`](LexerInternal::error) and
//! [`end`](LexerInternal::end).

use crate::callback::{CallbackResult, Output};
use crate::error::Error;
use crate::lexer::{Cursor, Lexer, Slot};
use crate::source::{Chunk, Source};
use crate::Logos;
use vstd::prelude::*;

verus! {

impl<'source, S: Source + ?Sized> Cursor<'source, S> {
    /// Whether `size` bytes can be read at `offset` bytes behind the current
    /// token.
    pub open spec fn holds(&self, offset: int, size: int) -> bool {
        self.token_end + offset + size <= self.source.content().len()
    }

    /// The `size` bytes at `offset` bytes behind the current token.
    pub open spec fn ahead(&self, offset: int, size: int) -> Seq<u8> {
        self.source.content().subrange(
            self.token_end + offset,
            self.token_end + offset + size,
        )
    }

    /// `corrected` is this cursor with its end moved to the nearest boundary
    /// at or behind it.
    pub open spec fn corrected_to(&self, corrected: &Self) -> bool {
        &&& corrected.source == self.source
        &&& corrected.token_start == self.token_start
        &&& self.token_end <= corrected.token_end
        &&& self.source.boundary(corrected.token_end as int)
        &&& forall|skipped: int|
            self.token_end <= skipped < corrected.token_end ==> !self.source.boundary(skipped)
    }
}

impl<'source, Token: Logos<'source>> Lexer<'source, Token> {
    /// Whether `output` may be applied to the lexer: the constructor has to
    /// take the payload; and a match that is skipped has to end where the
    /// source can be cut, for the scan goes on from there, and has to be
    /// non-empty. A skipped match of no bytes is a fault of the transition
    /// function: it would be found again at once, and for ever.
    pub open spec fn accepts<C, F: FnOnce(C) -> Token>(
        &self,
        output: Output<C, Token, Token::Error>,
        constructor: F,
    ) -> bool {
        match output {
            Output::Construct(contents) => call_requires(constructor, (contents,)),
            Output::Skip => self.cursor.wf() && self.cursor.token_start < self.cursor.token_end,
            _ => true,
        }
    }

    /// The lexer as the rescan after a skipped match starts from it: the span
    /// of the match discarded, the slot empty, the rescan marked as under way.
    pub open spec fn skipping(self) -> Self {
        Lexer { cursor: self.cursor.past_token(), token: Slot::Unset, rescanning: true, ..self }
    }

    /// What a rescan may make of this lexer: the transition function is run,
    /// and run again from where it left for as long as it hands back a skipped
    /// match; what it leaves at last, a result or the end of input, is what
    /// the rescan leaves, with the mark taken off.
    pub open spec fn rescanned(&self, after: &Self) -> bool
        decreases self.cursor.source.content().len() - self.cursor.token_end,
    {
        exists|scanned: Self|
            {
                &&& #[trigger] self.scanned(&scanned)
                &&& self.rescanning
                &&& if scanned.token is Unset {
                    scanned.rescanned(after)
                } else {
                    *after == (Lexer { rescanning: false, ..scanned })
                }
            }
    }

    /// Set the lexer's current token to `token`.
    #[inline]
    pub fn set(&mut self, token: Result<Token, Token::Error>)
        ensures
            *final(self) == (Lexer { token: Slot::Committed(token), ..*old(self) }),
    {
        self.token = Slot::Committed(token);
    }

    /// What applying `output` does to the lexer.
    pub open spec fn applied<C, F: FnOnce(C) -> Token>(
        &self,
        output: Output<C, Token, Token::Error>,
        constructor: F,
        after: &Self,
    ) -> bool {
        match output {
            Output::Construct(contents) => {
                &&& after.token matches Slot::Committed(Ok(token))
                &&& call_ensures(constructor, (contents,), token)
                &&& *after == (Lexer { token: after.token, ..*self })
            },
            Output::Emit(token) => *after == (Lexer { token: Slot::Committed(Ok(token)), ..*self }),
            Output::Error(error) => *after == (Lexer {
                token: Slot::Committed(Err(error)),
                ..*self
            }),
            Output::Skip => if self.rescanning {
                *after == self.skipping()
            } else {
                self.skipping().rescanned(after)
            },
        }
    }
}

/// What a rescan leaves: a result or the end of input, with the mark taken
/// off, over the same source, on a span that lies behind the place where the
/// rescan began and can be cut at both ends. Where the transition function ends
/// exactly at exhaustion, an end of input leaves nothing of the source.
pub proof fn lemma_rescan_comes_to_a_result<'source, Token>(
    before: Lexer<'source, Token>,
    after: Lexer<'source, Token>,
) where Token: Logos<'source>
    requires
        before.cursor.wf(),
        before.rescanned(&after),
    ensures
        after.cursor.wf(),
        before.cursor.precedes(&after.cursor),
        !(after.token is Unset),
        !after.rescanning,
        Token::ends_at_exhaustion() && after.token is Ended ==> after.cursor.exhausted(),
    decreases before.cursor.source.content().len() - before.cursor.token_end,
{
    let scanned = choose|scanned: Lexer<'source, Token>|
        {
            &&& #[trigger] before.scanned(&scanned)
            &&& before.rescanning
            &&& if scanned.token is Unset {
                scanned.rescanned(&after)
            } else {
                after == (Lexer { rescanning: false, ..scanned })
            }
        };
    if scanned.token is Unset {
        lemma_rescan_comes_to_a_result(scanned, after);
    }
}

/// A skipped match leaves no trace: what the lexer holds afterwards does not
/// depend on the constructor, which is never called, and whatever is committed
/// was found behind the match, on a span that starts at or behind its end.
pub proof fn lemma_skip_is_transparent<'source, Token, C, F, G>(
    before: Lexer<'source, Token>,
    after: Lexer<'source, Token>,
    constructor: F,
    other: G,
) where Token: Logos<'source>, F: FnOnce(C) -> Token, G: FnOnce(C) -> Token
    requires
        before.cursor.wf(),
        before.applied(Output::<C, Token, Token::Error>::Skip, constructor, &after),
    ensures
        before.applied(Output::<C, Token, Token::Error>::Skip, other, &after),
        after.cursor.source == before.cursor.source,
        before.cursor.token_end <= after.cursor.token_start,
        after.token is Unset <==> before.rescanning,
        !before.rescanning ==> before.skipping().rescanned(&after),
{
    if !before.rescanning {
        lemma_rescan_comes_to_a_result(before.skipping(), after);
    }
}

/// The interface that transition functions drive a lexer through.
///
/// It is implemented by [`Lexer`] alone. Nothing here checks that the cursor
/// stays on boundaries: a transition function knows the structure of what it
/// matched, and answers for the offsets it moves to.
pub trait LexerInternal<'source> {
    /// The token type of the lexer that is driven.
    type Token: Logos<'source>;

    /// The lexer that is driven.
    spec fn state(&self) -> Lexer<'source, Self::Token>;

    /// Read a chunk at current position.
    fn read<C: Chunk<'source>>(&self) -> (chunk: Option<C>)
        ensures
            chunk is Some <==> self.state().cursor.holds(0, C::size() as int),
            chunk matches Some(c) ==> c.window() == self.state().cursor.ahead(0, C::size() as int),
    ;

    /// Read a chunk at current position, offset by `n`.
    fn read_at<C: Chunk<'source>>(&self, n: usize) -> (chunk: Option<C>)
        ensures
            chunk is Some <==> self.state().cursor.holds(n as int, C::size() as int),
            chunk matches Some(c) ==> c.window() == self.state().cursor.ahead(
                n as int,
                C::size() as int,
            ),
    ;

    /// Read a chunk at current position, offset by `n`, where the caller knows
    /// that the chunk lies within the source.
    fn read_unchecked<C: Chunk<'source>>(&self, n: usize) -> (chunk: C)
        requires
            self.state().cursor.holds(n as int, C::size() as int),
        ensures
            chunk.window() == self.state().cursor.ahead(n as int, C::size() as int),
    ;

    /// Test a chunk at current position with a closure. Where no chunk can be
    /// read, the answer is `false`.
    fn test<C: Chunk<'source>, F: FnOnce(C) -> bool>(&self, test: F) -> (passed: bool)
        requires
            self.state().cursor.holds(0, C::size() as int) ==> forall|chunk: C|
                chunk.window() == self.state().cursor.ahead(0, C::size() as int) ==> call_requires(
                    test,
                    (chunk,),
                ),
        ensures
            passed ==> self.state().cursor.holds(0, C::size() as int),
            self.state().cursor.holds(0, C::size() as int) ==> exists|chunk: C|
                chunk.window() == self.state().cursor.ahead(0, C::size() as int) && call_ensures(
                    test,
                    (chunk,),
                    passed,
                ),
    ;

    /// Test a chunk at current position offset by `n` with a closure. Where no
    /// chunk can be read, the answer is `false`.
    fn test_at<C: Chunk<'source>, F: FnOnce(C) -> bool>(&self, n: usize, test: F) -> (passed: bool)
        requires
            self.state().cursor.holds(n as int, C::size() as int) ==> forall|chunk: C|
                chunk.window() == self.state().cursor.ahead(n as int, C::size() as int)
                    ==> call_requires(test, (chunk,)),
        ensures
            passed ==> self.state().cursor.holds(n as int, C::size() as int),
            self.state().cursor.holds(n as int, C::size() as int) ==> exists|chunk: C|
                chunk.window() == self.state().cursor.ahead(n as int, C::size() as int)
                    && call_ensures(test, (chunk,), passed),
    ;

    /// Bump the position by `size`, which must not lead past the end of the
    /// source.
    fn bump_unchecked(&mut self, size: usize)
        requires
            old(self).state().cursor.holds(size as int, 0),
        ensures
            final(self).state() == (Lexer {
                cursor: old(self).state().cursor.ending_at(
                    old(self).state().cursor.token_end + size,
                ),
                ..old(self).state()
            }),
            final(self).state().cursor.token_end == old(self).state().cursor.token_end + size,
    ;

    /// Reset `token_start` to `token_end`.
    fn trivia(&mut self)
        ensures
            final(self).state() == (Lexer {
                cursor: old(self).state().cursor.past_token(),
                ..old(self).state()
            }),
    ;

    /// Set the current token to the error for an unknown token, after the end
    /// of the cursor has been moved to the nearest boundary at or behind it.
    /// The error is made from the lexer with the corrected cursor.
    fn error(&mut self) where <Self::Token as Logos<'source>>::Error: Error<'source, Self::Token>
        requires
            old(self).state().cursor.holds(0, 0),
        ensures
            old(self).state().cursor.corrected_to(&final(self).state().cursor),
            final(self).state().token matches Slot::Committed(Err(error)) && call_ensures(
                <<Self::Token as Logos<'source>>::Error as Error<'source, Self::Token>>::unknown_token,
                (&(Lexer { cursor: final(self).state().cursor, ..old(self).state() }),),
                error,
            ),
            final(self).state() == (Lexer {
                cursor: final(self).state().cursor,
                token: final(self).state().token,
                ..old(self).state()
            }),
    ;

    /// Modify lexer state to represent the end of input.
    fn end(&mut self)
        ensures
            final(self).state() == (Lexer { token: Slot::Ended, ..old(self).state() }),
    ;

    /// Set the lexer's current token to `token`.
    fn set(&mut self, token: Result<Self::Token, <Self::Token as Logos<'source>>::Error>)
        ensures
            final(self).state() == (Lexer { token: Slot::Committed(token), ..old(self).state() }),
    ;

    /// Apply the result of a callback, modifying lexer state accordingly.
    ///
    /// A payload is turned into a token by `constructor` and committed; a
    /// token or an error is committed as it is. A skip discards the span of
    /// the match and scans on from its end, again and again while what is
    /// found is skipped too, until a scan commits a result or reaches the end
    /// of input. One loop does all of it: a skip met during the rescan is
    /// handed back to the loop that runs already.
    fn apply<C, R, F>(&mut self, result: R, constructor: F) where
        R: CallbackResult<'source, C, Self::Token>,
        F: FnOnce(C) -> Self::Token,

        requires
            forall|output: Output<C, Self::Token, <Self::Token as Logos<'source>>::Error>|
                result.constructs(&old(self).state(), output) ==> old(self).state().accepts(
                    output,
                    constructor,
                ),
        ensures
            exists|output: Output<C, Self::Token, <Self::Token as Logos<'source>>::Error>|
                result.constructs(&old(self).state(), output) && old(self).state().applied(
                    output,
                    constructor,
                    &final(self).state(),
                ),
    ;
}

impl<'source, Token> LexerInternal<'source> for Lexer<'source, Token> where Token: Logos<'source> {
    type Token = Token;

    open spec fn state(&self) -> Lexer<'source, Token> {
        *self
    }

    #[inline]
    fn read<C>(&self) -> (chunk: Option<C>) where C: Chunk<'source> {
        self.cursor.source.read(self.cursor.token_end)
    }

    #[inline]
    fn read_at<C>(&self, n: usize) -> (chunk: Option<C>) where C: Chunk<'source> {
        let len = self.cursor.source.len();
        match self.cursor.token_end.checked_add(n) {
            Some(offset) => self.cursor.source.read(offset),
            None => {
                assert(self.cursor.token_end + n > len);
                None
            },
        }
    }

    #[inline]
    fn read_unchecked<C>(&self, n: usize) -> (chunk: C) where C: Chunk<'source> {
        proof {
            C::lemma_size();
        }
        let len = self.cursor.source.len();
        assert(self.cursor.token_end + n + C::SIZE <= len);
        self.cursor.source.read_unchecked(self.cursor.token_end + n)
    }

    #[inline]
    fn test<C, F>(&self, test: F) -> (passed: bool) where C: Chunk<'source>, F: FnOnce(C) -> bool {
        match self.cursor.source.read::<C>(self.cursor.token_end) {
            Some(chunk) => test(chunk),
            None => false,
        }
    }

    #[inline]
    fn test_at<C, F>(&self, n: usize, test: F) -> (passed: bool) where
        C: Chunk<'source>,
        F: FnOnce(C) -> bool,
     {
        match self.read_at::<C>(n) {
            Some(chunk) => test(chunk),
            None => false,
        }
    }

    #[inline]
    fn bump_unchecked(&mut self, size: usize) {
        let len = self.cursor.source.len();
        assert(self.cursor.token_end + size <= len);
        self.cursor.token_end += size;
    }

    #[inline]
    fn trivia(&mut self) {
        self.cursor.token_start = self.cursor.token_end;
    }

    #[inline]
    fn error(&mut self) where Token::Error: Error<'source, Token> {
        self.cursor.token_end = self.cursor.source.find_boundary(self.cursor.token_end);
        let error = Token::Error::unknown_token(self);
        self.set(Err(error))
    }

    #[inline]
    fn end(&mut self) {
        self.token = Slot::Ended;
    }

    #[inline]
    fn set(&mut self, token: Result<Token, Token::Error>) {
        Lexer::set(self, token)
    }

    #[inline]
    fn apply<C, R, F>(&mut self, result: R, constructor: F) where
        R: CallbackResult<'source, C, Token>,
        F: FnOnce(C) -> Token,
     {
        let output = result.construct(self);
        assert(result.constructs(&old(self).state(), output));
        assert(old(self).state().accepts(output, constructor));
        match output {
            Output::Construct(contents) => self.set(Ok(constructor(contents))),
            Output::Emit(token) => self.set(Ok(token)),
            Output::Error(error) => self.set(Err(error)),
            Output::Skip => {
                self.trivia();
                self.token = Slot::Unset;
                if !self.rescanning {
                    self.rescanning = true;
                    let ghost start = *self;
                    loop
                        invariant_except_break
                            self.cursor.wf(),
                            self.cursor.idle(),
                            self.token is Unset,
                            self.rescanning,
                            forall|after: Self| #[trigger]
                                self.rescanned(&after) ==> start.rescanned(&after),
                        ensures
                            start.rescanned(&(Lexer { rescanning: false, ..*self })),
                        decreases self.cursor.source.content().len() - self.cursor.token_end,
                    {
                        let ghost entered = *self;
                        Token::lex(self);
                        assert(entered.scanned(self));
                        if !self.token.is_unset() {
                            assert(entered.rescanned(&(Lexer { rescanning: false, ..*self })));
                            break ;
                        }
                        assert forall|after: Self| #[trigger] self.rescanned(&after) implies start.rescanned(
                            &after,
                        ) by {
                            assert(entered.rescanned(&after));
                        }
                    }
                    self.rescanning = false;
                }
            },
        }
    }
}

} // verus!
