use logos::internal::LexerInternal;
use logos::iter::LexIterator;
use logos::{Lexer, LexerExt, Logos, UnknownToken};

/// Digits, one token each; blanks are skipped. The extras count the tokens
/// that were committed.
#[derive(Debug, PartialEq, Clone, Copy)]
enum Digit {
    Blank,
    Value(u8),
}

impl<'s> Logos<'s> for Digit {
    type Extras = usize;
    type Source = [u8];
    type Error = UnknownToken;

    fn lex(lex: &mut Lexer<'s, Self>) {
        match lex.read::<u8>() {
            None => lex.end(),
            Some(b' ') => {
                lex.bump_unchecked(1);
                lex.apply(logos::Skip, |()| Digit::Blank)
            }
            Some(byte) if byte.is_ascii_digit() => {
                lex.bump_unchecked(1);
                lex.extras += 1;
                lex.apply(byte - b'0', Digit::Value)
            }
            Some(_) => {
                lex.bump_unchecked(1);
                lex.extras += 1;
                LexerInternal::error(lex)
            }
        }
    }
}

#[test]
fn peek_pulls_once() {
    let mut lexer = Digit::lexer(b"1 2 3").lookahead();
    assert_eq!(*lexer.extras(), 0);
    assert_eq!(lexer.span(), 0..0);

    assert_eq!(lexer.peek(), Some(&Ok(Digit::Value(1))));
    assert_eq!(*lexer.extras(), 1);
    assert_eq!(lexer.span(), 0..1);

    for _ in 0..10 {
        assert_eq!(lexer.peek(), Some(&Ok(Digit::Value(1))));
        assert_eq!(lexer.peek_mut(), Some(&mut Ok(Digit::Value(1))));
    }
    assert_eq!(*lexer.extras(), 1);
    assert_eq!(lexer.span(), 0..1);

    assert_eq!(lexer.next(), Some(Ok(Digit::Value(1))));
    assert_eq!(*lexer.extras(), 1);
    assert_eq!(lexer.span(), 0..1);

    assert_eq!(lexer.next(), Some(Ok(Digit::Value(2))));
    assert_eq!(*lexer.extras(), 2);
    assert_eq!(lexer.span(), 2..3);
}

#[test]
fn peek_at_the_end_is_cached_too() {
    let mut lexer = Digit::lexer(b"7 ").lookahead();

    assert_eq!(lexer.next(), Some(Ok(Digit::Value(7))));
    assert_eq!(lexer.peek(), None);
    assert_eq!(lexer.span(), 2..2);
    assert_eq!(lexer.peek(), None);
    assert_eq!(lexer.peek_mut(), None);
    assert_eq!(lexer.next(), None);
    assert_eq!(*lexer.extras(), 1);
}

#[test]
fn peek_mut_writes_to_the_cached_item() {
    let mut lexer = Digit::lexer(b"12").lookahead();

    *lexer.peek_mut().unwrap() = Ok(Digit::Value(9));

    assert_eq!(lexer.peek(), Some(&Ok(Digit::Value(9))));
    assert_eq!(lexer.next(), Some(Ok(Digit::Value(9))));
    assert_eq!(lexer.next(), Some(Ok(Digit::Value(2))));
    assert_eq!(*lexer.extras(), 2);
}

#[test]
fn next_if_takes_on_yes() {
    let mut lexer = Digit::lexer(b"1 2").lookahead();
    assert_eq!(lexer.peek(), Some(&Ok(Digit::Value(1))));

    assert_eq!(lexer.next_if(|item| *item == Ok(Digit::Value(1))), Some(Ok(Digit::Value(1))));

    // The item is gone: the next look pulls again.
    assert_eq!(*lexer.extras(), 1);
    assert_eq!(lexer.peek(), Some(&Ok(Digit::Value(2))));
    assert_eq!(*lexer.extras(), 2);
}

#[test]
fn next_if_keeps_on_no() {
    let mut lexer = Digit::lexer(b"1 2").lookahead();
    assert_eq!(lexer.peek(), Some(&Ok(Digit::Value(1))));

    assert_eq!(lexer.next_if(|item| *item == Ok(Digit::Value(2))), None);
    assert_eq!(lexer.next_if(|_| false), None);

    assert_eq!(*lexer.extras(), 1);
    assert_eq!(lexer.peek(), Some(&Ok(Digit::Value(1))));
    assert_eq!(lexer.next(), Some(Ok(Digit::Value(1))));
    assert_eq!(*lexer.extras(), 1);
}

#[test]
fn next_if_pulls_where_nothing_is_cached() {
    let mut lexer = Digit::lexer(b"1 2").lookahead();

    assert_eq!(lexer.next_if(|_| false), None);
    assert_eq!(*lexer.extras(), 1);
    assert_eq!(lexer.span(), 0..1);
    assert_eq!(lexer.next_if(|_| true), Some(Ok(Digit::Value(1))));
    assert_eq!(*lexer.extras(), 1);
    assert_eq!(lexer.next_if(|_| true), Some(Ok(Digit::Value(2))));
    assert_eq!(*lexer.extras(), 2);
}

#[test]
fn next_if_at_the_end_does_not_ask() {
    let mut lexer = Digit::lexer(b" ").lookahead();
    let mut asked = false;

    assert_eq!(
        lexer.next_if(|_| {
            asked = true;
            true
        }),
        None
    );

    assert!(!asked);
    assert_eq!(lexer.peek(), None);
    assert_eq!(lexer.next(), None);
}

#[test]
fn next_if_eq_compares_with_the_expected_item() {
    let mut lexer = Digit::lexer(b"1x2").lookahead();

    assert_eq!(lexer.next_if_eq(&Ok(Digit::Value(2))), None);
    assert_eq!(lexer.next_if_eq(&Ok(Digit::Value(1))), Some(Ok(Digit::Value(1))));
    assert_eq!(lexer.next_if_eq(&Ok(Digit::Value(2))), None);
    assert_eq!(lexer.next_if_eq(&Err(UnknownToken)), Some(Err(UnknownToken)));
    assert_eq!(lexer.next_if_eq(&Ok(Digit::Value(2))), Some(Ok(Digit::Value(2))));
    assert_eq!(lexer.next_if_eq(&Ok(Digit::Value(2))), None);
    assert_eq!(lexer.next(), None);
    assert_eq!(*lexer.extras(), 3);
}

#[test]
fn lookahead_gives_the_lexer_back() {
    let mut lexer = Digit::lexer(b"1 2").lookahead();
    assert_eq!(lexer.peek(), Some(&Ok(Digit::Value(1))));

    let mut lexer = lexer.into_lexer();

    // The cached item went with the adaptor; the lexer stands behind it.
    assert_eq!(lexer.span(), 0..1);
    assert_eq!(lexer.next(), Some(Ok(Digit::Value(2))));
}

#[test]
fn size_hint_counts_the_cached_item() {
    let mut lexer = Digit::lexer(b"1 2").lookahead();

    // Nothing cached: the bounds of the inner sequence.
    assert_eq!(lexer.size_hint((0, None)), (0, None));
    assert_eq!(lexer.size_hint((2, Some(5))), (2, Some(5)));

    // An item cached: one more.
    assert_eq!(lexer.peek(), Some(&Ok(Digit::Value(1))));
    assert_eq!(lexer.size_hint((0, None)), (1, None));
    assert_eq!(lexer.size_hint((2, Some(5))), (3, Some(6)));
    assert_eq!(lexer.size_hint((0, Some(0))), (1, Some(1)));
    assert_eq!(
        lexer.size_hint((usize::MAX - 1, Some(usize::MAX - 1))),
        (usize::MAX, Some(usize::MAX))
    );
    // Bounds that would not fit: the lower one stays, the upper one goes.
    assert_eq!(lexer.size_hint((usize::MAX, Some(usize::MAX))), (usize::MAX, None));
    assert_eq!(lexer.size_hint((usize::MAX, None)), (usize::MAX, None));

    // The end cached: nothing is left, whatever the inner sequence says.
    assert_eq!(lexer.next(), Some(Ok(Digit::Value(1))));
    assert_eq!(lexer.next(), Some(Ok(Digit::Value(2))));
    assert_eq!(lexer.peek(), None);
    assert_eq!(lexer.size_hint((0, None)), (0, Some(0)));
    assert_eq!(lexer.size_hint((7, Some(9))), (0, Some(0)));
}

#[test]
fn nth_drops_the_items_before() {
    let mut lexer = Digit::lexer(b"0 1 2 3 4 5");

    assert_eq!(lexer.nth(0), Some(Ok(Digit::Value(0))));
    assert_eq!(lexer.nth(1), Some(Ok(Digit::Value(2))));
    assert_eq!(lexer.span(), 4..5);
    assert_eq!(lexer.extras, 3);
    assert_eq!(lexer.nth(2), Some(Ok(Digit::Value(5))));
    assert_eq!(lexer.nth(0), None);
    assert_eq!(lexer.extras, 6);
}

#[test]
fn nth_stops_where_the_sequence_ends() {
    let mut lexer = Digit::lexer(b"0 1 x");

    assert_eq!(lexer.nth(7), None);
    // Three items were pulled and dropped, then the end was found.
    assert_eq!(lexer.extras, 3);
    assert_eq!(lexer.span(), 5..5);
    assert_eq!(lexer.nth(0), None);
}

#[test]
fn nth_counts_the_cached_item() {
    let mut lexer = Digit::lexer(b"0 1 2").lookahead();
    assert_eq!(lexer.peek(), Some(&Ok(Digit::Value(0))));

    assert_eq!(lexer.nth(0), Some(Ok(Digit::Value(0))));
    assert_eq!(*lexer.extras(), 1);

    assert_eq!(lexer.peek(), Some(&Ok(Digit::Value(1))));
    assert_eq!(lexer.nth(1), Some(Ok(Digit::Value(2))));
    assert_eq!(*lexer.extras(), 3);

    // With the end in the cache nothing more is pulled.
    assert_eq!(lexer.peek(), None);
    assert_eq!(lexer.nth(3), None);
    assert_eq!(lexer.span(), 5..5);
}
