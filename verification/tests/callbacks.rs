use logos::internal::LexerInternal;
use logos::iter::LexIterator;
use logos::source::Source;
use logos::{Lexer, Logos, UnknownToken};
use std::borrow::Cow;
use std::fmt;
use std::ops::Range;

fn collect<L: LexIterator>(mut sequence: L) -> Vec<L::Item> {
    let mut items = Vec::new();
    while let Some(item) = sequence.next() {
        items.push(item);
    }
    items
}

type TestCase<'a, Token> = (
    Result<Token, <Token as Logos<'a>>::Error>,
    &'a <<Token as Logos<'a>>::Source as Source>::Slice,
    Range<usize>,
);

fn assert_lex<'a, Token>(source: &'a Token::Source, tokens: &[TestCase<'a, Token>])
where
    Token: Logos<'a> + fmt::Debug + PartialEq,
    Token::Error: fmt::Debug + PartialEq,
    Token::Extras: Default,
{
    let mut lex = Token::lexer(source);

    for tuple in tokens {
        assert_eq!(
            &(lex.next().expect("Unexpected end"), lex.slice(), lex.span()),
            tuple
        );
    }

    assert_eq!(lex.next(), None);
}

fn is_space(byte: u8) -> bool {
    matches!(byte, b' ' | b'\t' | b'\n' | 0x0c)
}

/// Moves the end of the cursor over the bytes that `class` holds of, and says
/// how many there were.
fn bump_while<'s, T: Logos<'s>>(lex: &mut Lexer<'s, T>, class: fn(u8) -> bool) -> usize {
    let mut count = 0;
    while lex.test(class) {
        lex.bump_unchecked(1);
        count += 1;
    }
    count
}

/// How many bytes from `offset` behind the cursor on belong to `class`.
fn count_at<'s, T: Logos<'s>>(lex: &Lexer<'s, T>, offset: usize, class: fn(u8) -> bool) -> usize {
    let mut count = 0;
    while lex.test_at(offset + count, class) {
        count += 1;
    }
    count
}

fn is_digit(byte: u8) -> bool {
    byte.is_ascii_digit()
}

fn is_letter(byte: u8) -> bool {
    byte.is_ascii_alphabetic()
}

#[derive(Debug, PartialEq)]
enum DataToken<'a> {
    Whitespace,

    Text(&'a str),

    Integer(i64),

    Float(f64),
}

impl<'a> Logos<'a> for DataToken<'a> {
    type Extras = ();
    type Source = str;
    type Error = UnknownToken;

    fn lex(lex: &mut Lexer<'a, Self>) {
        let first = match lex.read::<u8>() {
            None => return lex.end(),
            Some(byte) => byte,
        };
        if is_space(first) {
            bump_while(lex, is_space);
            let skipped = logos::skip(lex);
            return lex.apply(skipped, |()| DataToken::Whitespace);
        }
        if is_letter(first) {
            bump_while(lex, is_letter);
            let text = lex.slice();
            return lex.apply(text, DataToken::Text);
        }
        let sign = if first == b'-' { 1 } else { 0 };
        let digits = count_at(lex, sign, is_digit);
        if digits == 0 {
            lex.bump_unchecked(1);
            return LexerInternal::error(lex);
        }
        let fraction = if lex.test_at(sign + digits, |byte: u8| byte == b'.') {
            count_at(lex, sign + digits + 1, is_digit)
        } else {
            0
        };
        if fraction > 0 {
            lex.bump_unchecked(sign + digits + 1 + fraction);
            let float: Option<f64> = lex.slice().parse().ok();
            lex.apply(float, DataToken::Float)
        } else {
            lex.bump_unchecked(sign + digits);
            let integer: Option<i64> = lex.slice().parse().ok();
            lex.apply(integer, DataToken::Integer)
        }
    }
}

#[test]
#[allow(clippy::approx_constant)]
fn numbers() {
    let tokens: Vec<_> = collect(DataToken::lexer("Hello 1 42 -100 pi 3.14 -77.77"));

    assert_eq!(
        tokens,
        &[
            Ok(DataToken::Text("Hello")),
            Ok(DataToken::Integer(1)),
            Ok(DataToken::Integer(42)),
            Ok(DataToken::Integer(-100)),
            Ok(DataToken::Text("pi")),
            Ok(DataToken::Float(3.14)),
            Ok(DataToken::Float(-77.77)),
        ]
    );
}

#[derive(Debug, PartialEq)]
enum LifetimeToken<'a> {
    Whitespace,

    Integer((&'a str, u64)),

    Text(Cow<'a, str>),
}

fn is_lower(byte: u8) -> bool {
    byte.is_ascii_lowercase()
}

impl<'a> Logos<'a> for LifetimeToken<'a> {
    type Extras = ();
    type Source = str;
    type Error = UnknownToken;

    fn lex(lex: &mut Lexer<'a, Self>) {
        let first = match lex.read::<u8>() {
            None => return lex.end(),
            Some(byte) => byte,
        };
        if is_space(first) {
            bump_while(lex, is_space);
            let skipped = logos::skip(lex);
            lex.apply(skipped, |()| LifetimeToken::Whitespace)
        } else if is_digit(first) {
            bump_while(lex, is_digit);
            let slice = lex.slice();
            let parsed = slice.parse::<u64>().map(|n| (slice, n)).ok();
            lex.apply(parsed, LifetimeToken::Integer)
        } else if is_lower(first) {
            bump_while(lex, is_lower);
            let text = Cow::Borrowed(lex.slice());
            lex.apply(text, LifetimeToken::Text)
        } else {
            lex.bump_unchecked(1);
            LexerInternal::error(lex)
        }
    }
}

#[test]
fn supplement_lifetime_in_types() {
    let tokens: Vec<_> = collect(LifetimeToken::lexer("123 hello 42"));

    assert_eq!(
        tokens,
        &[
            Ok(LifetimeToken::Integer(("123", 123))),
            Ok(LifetimeToken::Text(Cow::Borrowed("hello"))),
            Ok(LifetimeToken::Integer(("42", 42))),
        ],
    );
}

fn parse_raw_string(lexer: &mut Lexer<RustToken>) -> bool {
    // Who needs more then 25 hashes anyway? :)
    let q_hashes = "\"##############################";
    let closing = &q_hashes[..lexer.slice().len() - 1]; // skip initial 'r'

    lexer
        .remainder()
        .find(closing)
        .map(|i| lexer.bump(i + closing.len()))
        .is_some()
}

#[derive(Debug, Clone, Copy, PartialEq)]
enum RustToken {
    Whitespace,

    Ident,

    RawString,
}

fn is_ident_start(byte: u8) -> bool {
    byte.is_ascii_alphabetic() || byte == b'_'
}

fn is_ident_part(byte: u8) -> bool {
    byte.is_ascii_alphanumeric() || byte == b'_'
}

fn is_hash(byte: u8) -> bool {
    byte == b'#'
}

impl<'s> Logos<'s> for RustToken {
    type Extras = ();
    type Source = str;
    type Error = UnknownToken;

    fn lex(lex: &mut Lexer<'s, Self>) {
        let first = match lex.read::<u8>() {
            None => return lex.end(),
            Some(byte) => byte,
        };
        if is_space(first) {
            bump_while(lex, is_space);
            let skipped = logos::skip(lex);
            return lex.apply(skipped, |()| RustToken::Whitespace);
        }
        if first == b'r' {
            let hashes = count_at(lex, 1, is_hash);
            if lex.test_at(1 + hashes, |byte: u8| byte == b'"') {
                lex.bump_unchecked(1 + hashes + 1);
                let closed = parse_raw_string(lex);
                return lex.apply(closed, |()| RustToken::RawString);
            }
        }
        if is_ident_start(first) {
            bump_while(lex, is_ident_part);
            return lex.set(Ok(RustToken::Ident));
        }
        lex.bump_unchecked(1);
        LexerInternal::error(lex)
    }
}

#[test]
fn raw_strings() {
    assert_lex(
        " r\"foo\" r#\"bar\"# r#####\"baz\"##### r###\"error\"## ",
        &[
            (Ok(RustToken::RawString), "r\"foo\"", 1..7),
            (Ok(RustToken::RawString), "r#\"bar\"#", 8..16),
            (Ok(RustToken::RawString), "r#####\"baz\"#####", 17..33),
            (Err(UnknownToken), "r###\"", 34..39),
            (Ok(RustToken::Ident), "error", 39..44),
            (Err(UnknownToken), "\"", 44..45),
            (Err(UnknownToken), "#", 45..46),
            (Err(UnknownToken), "#", 46..47),
        ],
    );
}

#[test]
fn callbacks_see_the_slice_of_the_match() {
    let mut lexer = DataToken::lexer("  seven 7");

    assert_eq!(lexer.next(), Some(Ok(DataToken::Text("seven"))));
    assert_eq!(lexer.span(), 2..7);
    assert_eq!(lexer.next(), Some(Ok(DataToken::Integer(7))));
    assert_eq!(lexer.slice(), "7");
    assert_eq!(lexer.next(), None);
}

#[test]
fn callback_that_fails_reports_an_unknown_token_over_the_match() {
    // 20 digits do not fit an `i64`: the callback answers `None`.
    let mut lexer = DataToken::lexer("99999999999999999999 1");

    assert_eq!(lexer.next(), Some(Err(UnknownToken)));
    assert_eq!(lexer.span(), 0..20);
    assert_eq!(lexer.next(), Some(Ok(DataToken::Integer(1))));
    assert_eq!(lexer.next(), None);
}
