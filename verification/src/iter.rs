//! Lexers as sequences of items, and adaptors that keep the lexer in reach.
//!
//! A [`LexIterator`] yields its items one pull at a time and can always say
//! which lexer it draws from. The lexer is one; so is a lexer wrapped in any of
//! the adaptors of this module, so that span, slice and extras stay at hand
//! however the sequence has been dressed up.

use crate::lexer::{AtRest, Lexer, Slot};
use crate::Logos;
use vstd::prelude::*;

verus! {

/// A sequence of items that is drawn from a lexer.
pub trait LexIterator {
    /// The type of the lexer that the sequence is drawn from: some
    /// [`Lexer`].
    type Lexer: AtRest;

    /// What the sequence is made of.
    type Item;

    /// The underlying lexer.
    spec fn lexer(&self) -> Self::Lexer;

    /// Whether a pull may be made: the lexer is at rest, and whatever else the
    /// sequence calls on a pull can be called.
    spec fn ready(&self) -> bool;

    /// What a single pull may do: `after` is the sequence it leaves behind and
    /// `item` is what it yields.
    spec fn pulled(&self, after: &Self, item: Option<Self::Item>) -> bool;

    /// A sequence that is ready for a pull has its lexer at rest.
    proof fn lemma_ready_at_rest(&self)
        ensures
            self.ready() ==> self.lexer().at_rest(),
    ;

    /// Get a reference to the underlying [`Lexer`].
    fn as_lexer(&self) -> (lexer: &Self::Lexer)
        ensures
            *lexer == self.lexer(),
    ;

    /// Get a mutable reference to the underlying [`Lexer`]. What is done to
    /// the lexer through it is done to the lexer of the sequence, and nothing
    /// else of the sequence changes.
    fn as_lexer_mut(&mut self) -> (lexer: &mut Self::Lexer)
        ensures
            *lexer == old(self).lexer(),
            final(self).lexer() == *final(lexer),
            old(self).ready() && final(lexer).at_rest() ==> final(self).ready(),
    ;

    /// Consume `self`, and return the underlying [`Lexer`].
    fn into_lexer(self) -> (lexer: Self::Lexer) where Self: Sized
        ensures
            lexer == self.lexer(),
    ;

    /// Pull the next item. `None` says that the sequence has no item to give.
    fn next(&mut self) -> (item: Option<Self::Item>)
        requires
            old(self).ready(),
        ensures
            final(self).ready(),
            old(self).pulled(final(self), item),
    ;
}

impl<'source, Token> Lexer<'source, Token> where Token: Logos<'source> {
    /// Pull the next token: discard the span of the last one, run the
    /// transition function from there and hand out what it has committed.
    /// `None` says that it has found no more input.
    #[inline]
    pub fn next(&mut self) -> (item: Option<Result<Token, Token::Error>>)
        requires
            old(self).wf(),
        ensures
            final(self).wf(),
            old(self).pulled(final(self), item),
    {
        self.cursor.token_start = self.cursor.token_end;
        self.token = Slot::Unset;
        Token::lex(self);
        let ghost scanned = *self;
        assert(old(self).entering().scanned(&scanned));
        self.token.take()
    }
}

impl<'source, Token> LexIterator for Lexer<'source, Token> where Token: Logos<'source> {
    type Lexer = Lexer<'source, Token>;

    type Item = Result<Token, Token::Error>;

    open spec fn lexer(&self) -> Lexer<'source, Token> {
        *self
    }

    open spec fn ready(&self) -> bool {
        self.wf()
    }

    /// A pull discards the span of the last token, runs the transition
    /// function once, and takes what it has committed out of the slot.
    open spec fn pulled(&self, after: &Self, item: Option<Result<Token, Token::Error>>) -> bool {
        exists|scanned: Lexer<'source, Token>|
            {
                &&& #[trigger] self.entering().scanned(&scanned)
                &&& item == scanned.token.yielded()
                &&& *after == (Lexer { token: Slot::Unset, ..scanned })
            }
    }

    proof fn lemma_ready_at_rest(&self) {
    }

    #[inline(always)]
    fn as_lexer(&self) -> (lexer: &Lexer<'source, Token>) {
        self
    }

    #[inline(always)]
    fn as_lexer_mut(&mut self) -> (lexer: &mut Lexer<'source, Token>) {
        self
    }

    #[inline(always)]
    fn into_lexer(self) -> (lexer: Lexer<'source, Token>) {
        self
    }

    #[inline]
    fn next(&mut self) -> (item: Option<Result<Token, Token::Error>>) {
        Lexer::next(self)
    }
}

/// A sequence drawn from a lexer, seen without its own type: what is left of a
/// [`LexIterator`] once it has been put behind dynamic dispatch. Every
/// `LexIterator` is one. It can still be pulled, still reaches its lexer, and can
/// still give the lexer back when the box is opened.
pub trait Erased<Lx: AtRest, Item> {
    /// The underlying lexer.
    spec fn erased_lexer(&self) -> Lx;

    /// Whether a pull may be made.
    spec fn can_pull(&self) -> bool;

    /// Whether a pull may yield `item` and leave the lexer as `lexer`.
    spec fn yields(&self, lexer: Lx, item: Option<Item>) -> bool;

    /// Get a reference to the underlying [`Lexer`].
    fn lexer_ref(&self) -> (lexer: &Lx)
        ensures
            *lexer == self.erased_lexer(),
    ;

    /// Get a mutable reference to the underlying [`Lexer`].
    fn lexer_mut(&mut self) -> (lexer: &mut Lx)
        ensures
            *lexer == old(self).erased_lexer(),
            final(self).erased_lexer() == *final(lexer),
            old(self).can_pull() && final(lexer).at_rest() ==> final(self).can_pull(),
    ;

    /// Pull the next item.
    fn pull(&mut self) -> (item: Option<Item>)
        requires
            old(self).can_pull(),
        ensures
            final(self).can_pull(),
            final(self).erased_lexer().at_rest(),
            old(self).yields(final(self).erased_lexer(), item),
    ;

    /// Open the box: move the sequence out of it and take its lexer. The
    /// sequence is consumed by this and by nothing else, and the box is gone.
    fn unbox(self: Box<Self>) -> (lexer: Lx)
        ensures
            lexer == self.erased_lexer(),
    ;
}

impl<L> Erased<L::Lexer, L::Item> for L where L: LexIterator {
    open spec fn erased_lexer(&self) -> L::Lexer {
        self.lexer()
    }

    open spec fn can_pull(&self) -> bool {
        self.ready()
    }

    open spec fn yields(&self, lexer: L::Lexer, item: Option<L::Item>) -> bool {
        exists|after: L| #[trigger] self.pulled(&after, item) && after.lexer() == lexer
    }

    #[inline]
    fn lexer_ref(&self) -> (lexer: &L::Lexer) {
        self.as_lexer()
    }

    #[inline]
    fn lexer_mut(&mut self) -> (lexer: &mut L::Lexer) {
        self.as_lexer_mut()
    }

    #[inline]
    fn pull(&mut self) -> (item: Option<L::Item>) {
        let item = self.next();
        proof {
            self.lemma_ready_at_rest();
        }
        item
    }

    #[inline]
    fn unbox(self: Box<Self>) -> (lexer: L::Lexer) {
        let sequence: L = *self;
        sequence.into_lexer()
    }
}

/// A boxed and type-erased lexer.
///
/// The box holds some [`LexIterator`] whose type is no longer known. Opening
/// it with [`into_lexer`](LexIterator::into_lexer) moves that sequence out and
/// hands back its lexer.
#[verifier::reject_recursive_types(Token)]
#[verifier::reject_recursive_types(Item)]
pub struct BoxedLexer<'source, Token, Item> where Token: Logos<'source> {
    /// The erased sequence.
    pub inner: Box<dyn Erased<Lexer<'source, Token>, Item> + 'source>,
}

impl<'source, Token, Item> BoxedLexer<'source, Token, Item> where Token: Logos<'source> {
    /// Puts `inner` into a box and forgets its type. The box stands as `inner`
    /// did: with the same lexer, and ready for a pull if `inner` was.
    pub fn new<L>(inner: L) -> (boxed: BoxedLexer<'source, Token, Item>) where
        L: LexIterator<Lexer = Lexer<'source, Token>, Item = Item> + 'source,

        ensures
            boxed.lexer() == inner.lexer(),
            boxed.ready() == inner.ready(),
    {
        proof {
            inner.lemma_ready_at_rest();
        }
        // What the sequence says of itself while its type is still known; the
        // erased value says the same.
        let ghost lexer = Erased::erased_lexer(&inner);
        let ghost pullable = Erased::can_pull(&inner);
        let boxed = BoxedLexer { inner: Box::new(inner) };
        assert(boxed.inner.erased_lexer() == lexer);
        assert(boxed.inner.can_pull() == pullable);
        boxed
    }

    /// Pull the next item from the erased sequence.
    pub fn next(&mut self) -> (item: Option<Item>)
        requires
            old(self).ready(),
        ensures
            final(self).ready(),
            old(self).pulled(final(self), item),
    {
        self.inner.pull()
    }
}

impl<'source, Token, Item> LexIterator for BoxedLexer<'source, Token, Item> where
    Token: Logos<'source>,
 {
    type Lexer = Lexer<'source, Token>;

    type Item = Item;

    open spec fn lexer(&self) -> Lexer<'source, Token> {
        self.inner.erased_lexer()
    }

    open spec fn ready(&self) -> bool {
        &&& self.inner.can_pull()
        &&& self.inner.erased_lexer().wf()
    }

    /// The erased sequence is pulled. Its own type is gone, so what is known
    /// of the pull is what it yields and how it leaves the lexer.
    open spec fn pulled(&self, after: &Self, item: Option<Item>) -> bool {
        self.inner.yields(after.inner.erased_lexer(), item)
    }

    proof fn lemma_ready_at_rest(&self) {
    }

    #[inline]
    fn as_lexer(&self) -> (lexer: &Lexer<'source, Token>) {
        self.inner.lexer_ref()
    }

    #[inline]
    fn as_lexer_mut(&mut self) -> (lexer: &mut Lexer<'source, Token>) {
        self.inner.lexer_mut()
    }

    #[inline]
    fn into_lexer(self) -> (lexer: Lexer<'source, Token>) {
        self.inner.unbox()
    }

    fn next(&mut self) -> (item: Option<Item>) {
        BoxedLexer::next(self)
    }
}

/// A sequence that maps each item of another to a new value, making use of the
/// lexer in the process.
pub struct MapWithLexer<L, F> {
    /// The sequence that is mapped.
    pub inner: L,
    /// The function that maps each item.
    pub op: F,
}

impl<L, F> MapWithLexer<L, F> where L: LexIterator {
    /// Wraps `inner`, to map its items with `op`.
    pub fn new(inner: L, op: F) -> (mapped: Self)
        ensures
            mapped.inner == inner,
            mapped.op == op,
    {
        Self { inner, op }
    }
}

impl<L, F, O> MapWithLexer<L, F> where L: LexIterator, F: FnMut(L::Item, &L::Lexer) -> O {
    /// Pull the next item: pull the inner sequence, then call the function
    /// with what it has yielded and with the lexer as the pull has left it.
    /// At the end of the inner sequence the function is not called.
    pub fn next(&mut self) -> (item: Option<O>)
        requires
            old(self).ready(),
        ensures
            final(self).ready(),
            old(self).pulled(final(self), item),
    {
        match self.inner.next() {
            Some(value) => Some((self.op)(value, self.inner.as_lexer())),
            None => None,
        }
    }
}

impl<L, F, O> LexIterator for MapWithLexer<L, F> where
    L: LexIterator,
    F: FnMut(L::Item, &L::Lexer) -> O,
 {
    type Lexer = L::Lexer;

    type Item = O;

    open spec fn lexer(&self) -> L::Lexer {
        self.inner.lexer()
    }

    open spec fn ready(&self) -> bool {
        &&& self.inner.ready()
        &&& forall|item: L::Item, lexer: &L::Lexer|
            call_requires(self.op, (item, lexer))
    }

    /// The inner sequence is pulled once. What it yields goes through the
    /// function, together with the lexer as the pull has left it.
    open spec fn pulled(&self, after: &Self, item: Option<O>) -> bool {
        exists|found: Option<L::Item>|
            {
                &&& #[trigger] self.inner.pulled(&after.inner, found)
                &&& match found {
                    Some(value) => item matches Some(mapped) && call_ensures(
                        self.op,
                        (value, &after.inner.lexer()),
                        mapped,
                    ),
                    None => item is None,
                }
            }
    }

    proof fn lemma_ready_at_rest(&self) {
        self.inner.lemma_ready_at_rest();
    }

    #[inline]
    fn as_lexer(&self) -> (lexer: &L::Lexer) {
        self.inner.as_lexer()
    }

    #[inline]
    fn as_lexer_mut(&mut self) -> (lexer: &mut L::Lexer)
        ensures
            final(self).op == old(self).op,
    {
        self.inner.as_lexer_mut()
    }

    #[inline]
    fn into_lexer(self) -> (lexer: L::Lexer) {
        self.inner.into_lexer()
    }

    fn next(&mut self) -> (item: Option<O>) {
        MapWithLexer::next(self)
    }
}

/// A sequence with a `peek()` method that can look into the future: at the
/// next item, before it is pulled.
pub struct Lookahead<L> where L: LexIterator {
    /// The sequence that is looked ahead in.
    pub inner: L,
    /// The item that has been pulled ahead of time, if one has.
    pub peeked: Option<Option<L::Item>>,
}

impl<L> Lookahead<L> where L: LexIterator {
    /// Wraps `inner`, with nothing looked at yet.
    pub fn new(inner: L) -> (lookahead: Self)
        ensures
            lookahead.inner == inner,
            lookahead.peeked is None,
    {
        Self { inner, peeked: None }
    }

    /// What looking ahead may do: where an item is cached nothing changes,
    /// else the inner sequence is pulled once and what it yields is cached.
    pub open spec fn peeks(&self, after: &Self) -> bool {
        match self.peeked {
            Some(_) => *after == *self,
            None => after.peeked matches Some(found) && self.inner.pulled(&after.inner, found),
        }
    }

    /// Pull the next item: the cached one if there is one, else the next of
    /// the inner sequence.
    #[inline]
    pub fn next(&mut self) -> (item: Option<L::Item>)
        requires
            old(self).ready(),
        ensures
            final(self).ready(),
            old(self).pulled(final(self), item),
    {
        match self.peeked.take() {
            Some(cached) => cached,
            None => self.inner.next(),
        }
    }

    /// Pulls the next item into the cache, unless one is there.
    fn fill(&mut self)
        requires
            old(self).ready(),
        ensures
            final(self).ready(),
            old(self).peeks(final(self)),
            final(self).peeked is Some,
    {
        if self.peeked.is_none() {
            let found = self.inner.next();
            self.peeked = Some(found);
        }
    }

    /// Returns a reference to the next token, without advancing the lexer.
    ///
    /// To see the next token the inner sequence has to be pulled: once, on the
    /// first look. What the pull does to the lexer is done then, and not again
    /// however often one looks.
    #[inline]
    pub fn peek(&mut self) -> (item: Option<&L::Item>)
        requires
            old(self).ready(),
        ensures
            final(self).ready(),
            old(self).peeks(final(self)),
            final(self).peeked matches Some(cached) && match cached {
                Some(value) => item matches Some(seen) && *seen == value,
                None => item is None,
            },
    {
        self.fill();
        match &self.peeked {
            Some(cached) => cached.as_ref(),
            None => None,
        }
    }

    /// Returns a mutable reference to the next token, without advancing the
    /// lexer.
    ///
    /// Like [`Lookahead::peek`], this pulls the inner sequence on the first
    /// look. What is written through the reference is written to the cached
    /// item, which the next pull hands out.
    #[inline]
    pub fn peek_mut(&mut self) -> (item: Option<&mut L::Item>)
        requires
            old(self).ready(),
        ensures
            final(self).ready(),
            exists|looked: Self|
                {
                    &&& #[trigger] old(self).peeks(&looked)
                    &&& looked.peeked matches Some(cached)
                    &&& match cached {
                        Some(value) => {
                            &&& item matches Some(seen)
                            &&& *seen == value
                            &&& *final(self) == (Lookahead {
                                peeked: Some(Some(*final(seen))),
                                ..looked
                            })
                        },
                        None => item is None && *final(self) == looked,
                    }
                },
    {
        self.fill();
        let ghost looked = *self;
        match &mut self.peeked {
            Some(cached) => cached.as_mut(),
            None => None,
        }
    }

    /// The bounds on how many items are left, given the bounds `inner` on how
    /// many the inner sequence has left: a cached item counts as one more, and
    /// a cached end says that nothing is left. A lower bound that would not fit
    /// stays at the largest number; an upper bound that would not fit is
    /// dropped.
    pub open spec fn hint(&self, inner: (usize, Option<usize>)) -> (usize, Option<usize>) {
        match self.peeked {
            Some(None) => (0, Some(0)),
            Some(Some(_)) => (
                if inner.0 < usize::MAX {
                    (inner.0 + 1) as usize
                } else {
                    usize::MAX
                },
                match inner.1 {
                    Some(upper) if upper < usize::MAX => Some((upper + 1) as usize),
                    _ => None,
                },
            ),
            None => inner,
        }
    }

    /// The bounds on how many items are left, given those of the inner
    /// sequence.
    #[inline]
    pub fn size_hint(&self, inner: (usize, Option<usize>)) -> (hint: (usize, Option<usize>))
        ensures
            hint == self.hint(inner),
    {
        let peek_len: usize = match self.peeked {
            Some(None) => return (0, Some(0)),
            Some(Some(_)) => 1,
            None => 0,
        };
        let (lo, hi) = inner;
        let lo = lo.saturating_add(peek_len);
        let hi = match hi {
            Some(x) => x.checked_add(peek_len),
            None => None,
        };
        (lo, hi)
    }

    /// What becomes of a lookahead with a filled cache once the test on the
    /// cached item has been answered by `taken`: on a yes the item is handed
    /// out and the cache emptied; on a no, or where the cache holds the end of
    /// the sequence, nothing is handed out and nothing changes.
    pub open spec fn decided(&self, taken: bool, after: &Self, item: Option<L::Item>) -> bool {
        match self.peeked {
            Some(Some(value)) if taken => {
                &&& item == Some(value)
                &&& *after == (Lookahead { peeked: None, ..*self })
            },
            Some(_) => item is None && *after == *self,
            None => false,
        }
    }

    /// Advance the lexer and return the next token, but only if a condition is
    /// true.
    ///
    /// If calling `func` on the next token returns `true`, consume and return
    /// it. Otherwise, return `None`, and keep the token for the next look or
    /// pull.
    pub fn next_if<F>(&mut self, func: F) -> (item: Option<L::Item>) where
        F: FnOnce(&L::Item) -> bool,

        requires
            old(self).ready(),
            forall|value: &L::Item| call_requires(func, (value,)),
        ensures
            final(self).ready(),
            exists|looked: Self, taken: bool|
                {
                    &&& #[trigger] old(self).peeks(&looked)
                    &&& #[trigger] looked.decided(taken, final(self), item)
                    &&& looked.peeked matches Some(Some(value)) ==> call_ensures(
                        func,
                        (&value,),
                        taken,
                    )
                },
    {
        let found = self.next();
        let ghost looked = Lookahead { peeked: Some(found), ..*self };
        assert(old(self).peeks(&looked));
        match found {
            Some(matched) => {
                let taken = func(&matched);
                if taken {
                    assert(looked.decided(true, self, Some(matched)));
                    Some(matched)
                } else {
                    self.peeked = Some(Some(matched));
                    assert(looked.decided(false, self, None));
                    None
                }
            },
            None => {
                self.peeked = Some(None);
                assert(looked.decided(false, self, None));
                None
            },
        }
    }

    /// Advance the lexer and return the next token, but only if it is equal to
    /// `expected`.
    pub fn next_if_eq<T>(&mut self, expected: &T) -> (item: Option<L::Item>) where
        T: ?Sized,
        L::Item: PartialEq<T>,

        requires
            old(self).ready(),
        ensures
            final(self).ready(),
            exists|looked: Self, taken: bool|
                {
                    &&& #[trigger] old(self).peeks(&looked)
                    &&& #[trigger] looked.decided(taken, final(self), item)
                    &&& looked.peeked matches Some(Some(value)) ==> call_ensures(
                        <L::Item as PartialEq<T>>::eq,
                        (&value, expected),
                        taken,
                    )
                },
    {
        let is_expected = |next: &L::Item| -> (same: bool)
            ensures
                call_ensures(<L::Item as PartialEq<T>>::eq, (next, expected), same),
            {
                *next == *expected
            };
        self.next_if(is_expected)
    }
}

impl<L> LexIterator for Lookahead<L> where L: LexIterator {
    type Lexer = L::Lexer;

    type Item = L::Item;

    open spec fn lexer(&self) -> L::Lexer {
        self.inner.lexer()
    }

    open spec fn ready(&self) -> bool {
        self.inner.ready()
    }

    /// A cached item is handed out and the inner sequence left alone; without
    /// one the inner sequence is pulled.
    open spec fn pulled(&self, after: &Self, item: Option<L::Item>) -> bool {
        &&& after.peeked is None
        &&& match self.peeked {
            Some(cached) => item == cached && after.inner == self.inner,
            None => self.inner.pulled(&after.inner, item),
        }
    }

    proof fn lemma_ready_at_rest(&self) {
        self.inner.lemma_ready_at_rest();
    }

    #[inline]
    fn as_lexer(&self) -> (lexer: &L::Lexer) {
        self.inner.as_lexer()
    }

    #[inline]
    fn as_lexer_mut(&mut self) -> (lexer: &mut L::Lexer)
        ensures
            final(self).peeked == old(self).peeked,
    {
        self.inner.as_lexer_mut()
    }

    #[inline]
    fn into_lexer(self) -> (lexer: L::Lexer) {
        self.inner.into_lexer()
    }

    #[inline]
    fn next(&mut self) -> (item: Option<L::Item>) {
        Lookahead::next(self)
    }
}

/// Once a pull on a lexer has found no more input, the next pull finds none
/// either, and the cursor stays at the end of the source. This holds of every
/// token type whose transition function ends exactly at exhaustion.
pub proof fn lemma_end_of_input_is_stable<'source, Token>(
    first: Lexer<'source, Token>,
    second: Lexer<'source, Token>,
    third: Lexer<'source, Token>,
    item: Option<Result<Token, Token::Error>>,
) where Token: Logos<'source>
    requires
        first.wf(),
        Token::ends_at_exhaustion(),
        first.pulled(&second, None),
        second.pulled(&third, item),
    ensures
        item is None,
        third.cursor.exhausted(),
        third.cursor.token_end == second.cursor.token_end,
{
}

/// Looking ahead twice is looking ahead once: the second look changes
/// nothing, so the inner sequence has been pulled at most once.
pub proof fn lemma_peek_pulls_once<L>(
    before: Lookahead<L>,
    looked: Lookahead<L>,
    again: Lookahead<L>,
) where L: LexIterator
    requires
        before.peeks(&looked),
        looked.peeks(&again),
    ensures
        looked.peeked is Some,
        again == looked,
        before.peeked is Some ==> looked == before,
        before.peeked is None ==> before.inner.pulled(&looked.inner, looked.peeked->0),
{
}

/// The pull that follows a look hands out the item that the look has seen, and
/// leaves the inner sequence as the look has left it.
pub proof fn lemma_next_after_peek<L>(
    before: Lookahead<L>,
    looked: Lookahead<L>,
    after: Lookahead<L>,
    item: Option<L::Item>,
) where L: LexIterator
    requires
        before.peeks(&looked),
        looked.pulled(&after, item),
    ensures
        looked.peeked == Some(item),
        after.inner == looked.inner,
        after.peeked is None,
{
}

/// With an item in the cache, a test that says yes takes the item and empties
/// the cache; a test that says no takes nothing, and the next look and the next
/// pull still find the item.
pub proof fn lemma_next_if_on_cached_item<L>(
    cached: Lookahead<L>,
    value: L::Item,
    taken: bool,
    after: Lookahead<L>,
    item: Option<L::Item>,
) where L: LexIterator
    requires
        cached.peeked == Some(Some(value)),
        cached.decided(taken, &after, item),
    ensures
        after.inner == cached.inner,
        taken ==> item == Some(value) && after.peeked is None,
        !taken ==> item is None && after == cached,
        !taken ==> forall|looked: Lookahead<L>| #[trigger]
            after.peeks(&looked) ==> looked == cached,
        !taken ==> forall|later: Lookahead<L>, found: Option<L::Item>| #[trigger]
            after.pulled(&later, found) ==> found == Some(value),
{
}

/// Boxing a sequence and opening the box again gives back the lexer as it
/// stood before: the same span over the same source, the same slice, the same
/// extras.
pub proof fn lemma_erasure_round_trip<'source, Token, L>(
    sequence: L,
    boxed: BoxedLexer<'source, Token, L::Item>,
    unboxed: Lexer<'source, Token>,
) where Token: Logos<'source>, L: LexIterator<Lexer = Lexer<'source, Token>>
    requires
        boxed.lexer() == sequence.lexer(),
        unboxed == boxed.lexer(),
    ensures
        unboxed == sequence.lexer(),
        unboxed.cursor.span() == sequence.lexer().cursor.span(),
        unboxed.cursor.token_content() == sequence.lexer().cursor.token_content(),
        unboxed.extras == sequence.lexer().extras,
{
}

} // verus!
