//! Extension methods for everything that is drawn from a lexer.

use crate::iter::{BoxedLexer, LexIterator, Lookahead, MapWithLexer};
use crate::lexer::{AtRest, Lexer, Span};
use crate::source::Source;
use crate::Logos;
use vstd::prelude::*;

verus! {

/// What asking a sequence for its `n`-th item from here may do: `n` pulls that
/// each yield an item, which is dropped, and one more pull that yields `item`;
/// or, where a pull finds the sequence at its end before that, the pulls up to
/// that one, and no item. `after` is the sequence as the last pull leaves it.
pub open spec fn pulled_nth<L: LexIterator>(
    before: &L,
    n: nat,
    after: &L,
    item: Option<L::Item>,
) -> bool
    decreases n,
{
    if n == 0 {
        before.pulled(after, item)
    } else {
        ||| before.pulled(after, None) && item is None
        ||| exists|next: L, dropped: L::Item|
            {
                &&& #[trigger] before.pulled(&next, Some(dropped))
                &&& next.ready()
                &&& pulled_nth(&next, (n - 1) as nat, after, item)
            }
    }
}

/// Extension methods for types that contain a [`Lexer`].
///
/// Every [`LexIterator`] has them. The first group reads the lexer through
/// the wrapper; the second wraps the sequence once more.
pub trait LexerExt<'source>: LexIterator<Lexer = Lexer<'source, <Self as LexerExt<'source>>::Token>> {
    /// The token type that the [`Lexer`] uses.
    type Token: Logos<'source>;

    /// The source position of the current token. This is equivalent to
    /// [`Lexer::span`].
    #[inline(always)]
    fn span(&self) -> (span: Span)
        ensures
            span == self.lexer().cursor.span(),
    {
        self.as_lexer().span()
    }

    /// The source that tokens are being read from. This is equivalent to
    /// [`Lexer::source`].
    #[inline(always)]
    fn source(&self) -> (source: &'source <Self::Token as Logos<'source>>::Source)
        ensures
            source == self.lexer().cursor.source,
    {
        self.as_lexer().source()
    }

    /// A slice containing the current token. This is equivalent to
    /// [`Lexer::slice`].
    #[inline(always)]
    fn slice(&self) -> (slice: &'source <<Self::Token as Logos<'source>>::Source as Source>::Slice)
        requires
            self.lexer().cursor.wf(),
        ensures
            <<Self::Token as Logos<'source>>::Source as Source>::slice_content(slice)
                == self.lexer().cursor.token_content(),
    {
        self.as_lexer().slice()
    }

    /// A slice containing the remaining source. This is equivalent to
    /// [`Lexer::remainder`].
    #[inline(always)]
    fn remainder(&self) -> (slice: &'source <<Self::Token as Logos<
        'source,
    >>::Source as Source>::Slice)
        requires
            self.lexer().cursor.wf(),
        ensures
            <<Self::Token as Logos<'source>>::Source as Source>::slice_content(slice)
                == self.lexer().cursor.remainder_content(),
    {
        self.as_lexer().remainder()
    }

    /// Get a reference to the lexer's extras.
    #[inline(always)]
    fn extras<'lexer>(&'lexer self) -> (extras: &'lexer <Self::Token as Logos<
        'source,
    >>::Extras) where 'source: 'lexer
        ensures
            *extras == self.lexer().extras,
    {
        &self.as_lexer().extras
    }

    /// Get a mutable reference to the lexer's extras. What is written through
    /// it is written to the extras of the underlying lexer, and nothing else
    /// of the lexer changes.
    fn extras_mut<'lexer>(&'lexer mut self) -> (extras: &'lexer mut <Self::Token as Logos<
        'source,
    >>::Extras) where 'source: 'lexer
        ensures
            *extras == old(self).lexer().extras,
            final(self).lexer() == (Lexer { extras: *final(extras), ..old(self).lexer() }),
            old(self).ready() ==> final(self).ready(),
    {
        proof {
            self.lemma_ready_at_rest();
        }
        let lexer = self.as_lexer_mut();
        assert(final(lexer).at_rest() <==> final(lexer).wf());
        &mut lexer.extras
    }

    /// The `n`-th item from here, counting from zero: the items before it are
    /// pulled and dropped. `None` if the sequence ends before that.
    fn nth(&mut self, n: usize) -> (item: Option<Self::Item>) where Self: Sized
        requires
            old(self).ready(),
        ensures
            final(self).ready(),
            pulled_nth(old(self), n as nat, final(self), item),
    {
        let mut left = n;
        while left > 0
            invariant
                self.ready(),
                forall|after: Self, item: Option<Self::Item>| #[trigger]
                    pulled_nth(&*self, left as nat, &after, item) ==> pulled_nth(
                        old(self),
                        n as nat,
                        &after,
                        item,
                    ),
            decreases left,
        {
            let ghost before = *self;
            let ghost dropped;
            match self.next() {
                Some(value) => {
                    proof {
                        dropped = value;
                    }
                },
                None => {
                    assert(pulled_nth(&before, left as nat, &*self, None));
                    return None;
                },
            }
            left -= 1;
            let ghost next = *self;
            assert forall|after: Self, item: Option<Self::Item>| #[trigger]
                pulled_nth(&next, left as nat, &after, item) implies pulled_nth(
                old(self),
                n as nat,
                &after,
                item,
            ) by {
                assert(before.pulled(&next, Some(dropped)));
                assert(pulled_nth(&before, (left + 1) as nat, &after, item));
            }
        }
        let ghost before = *self;
        let item = self.next();
        assert(pulled_nth(&before, 0, &*self, item));
        item
    }

    /// Wrap the lexer in a sequence that maps each token to another value,
    /// making use of the lexer in the process.
    ///
    /// The returned sequence produces values by calling `op` for each token,
    /// passing both the token and a reference to the lexer as arguments.
    #[inline]
    fn map_with_lexer<F, O>(self, op: F) -> (mapped: MapWithLexer<Self, F>) where
        Self: Sized,
        F: FnMut(Self::Item, &Lexer<'source, Self::Token>) -> O,

        ensures
            mapped.inner == self,
            mapped.op == op,
    {
        MapWithLexer::new(self, op)
    }

    /// Box the lexer, returning a type-erased [`BoxedLexer`].
    #[inline]
    fn boxed(self) -> (boxed: BoxedLexer<'source, Self::Token, Self::Item>) where
        Self: Sized + 'source,

        ensures
            boxed.lexer() == self.lexer(),
            boxed.ready() == self.ready(),
    {
        BoxedLexer::new(self)
    }

    /// Wrap the sequence in one that can look at the next token before it is
    /// pulled, with [`peek`](Lookahead::peek) and
    /// [`peek_mut`](Lookahead::peek_mut).
    #[inline]
    fn lookahead(self) -> (lookahead: Lookahead<Self>) where Self: Sized + 'source
        ensures
            lookahead.inner == self,
            lookahead.peeked is None,
    {
        Lookahead::new(self)
    }
}

impl<'source, Token, L> LexerExt<'source> for L where
    Token: Logos<'source>,
    L: LexIterator<Lexer = Lexer<'source, Token>>,
 {
    type Token = Token;
}

} // verus!
