//! Types and traits used within lexer callbacks.
//!
//! A callback is attached to a pattern and runs when the pattern has matched.
//! It may return values of several shapes; [`CallbackResult`] turns each of them
//! into the one [`Output`] that tells the lexer how to go on:
//!
//! | Returned         | Output                                                    |
//! |------------------|-----------------------------------------------------------|
//! | a plain value    | `Construct` of that value                                 |
//! | `bool`           | `Construct(())` if `true`, else the unknown-token error   |
//! | `Option<C>`      | `Construct` of the content, else the unknown-token error  |
//! | `Result<C, E>`   | `Construct` of the content, else the converted error      |
//! | `Skip`           | `Skip`                                                    |
//! | `Filter<C>`      | `Construct` of the accepted value, else `Skip`            |
//! | `Output`         | itself                                                    |

use crate::error::Error;
use crate::lexer::Lexer;
use crate::{Filter, Logos, Skip};
use vstd::prelude::*;

verus! {

/// Represents actions the lexer can take.
///
/// After a callback has run, the lexer goes by the `Output` that the callback's
/// result stands for.
#[derive(Debug, Clone, PartialEq, Eq, Hash)]
pub enum Output<C, T, E> {
    /// Skip this token
    Skip,
    /// Construct a variant containing a value of type `C`
    Construct(C),
    /// Emit a token of type `T`
    Emit(T),
    /// Emit an error of type `E`
    Error(E),
}

/// Types that can be returned from lexer callbacks.
pub trait CallbackResult<'s, C, T> where T: Logos<'s> {
    /// Whether `output` is an action that `self` stands for, with the lexer as
    /// it is in `lex`. There is always exactly one kind of action; where an
    /// error value is made by the error type, the relation follows what that
    /// type's own functions promise.
    spec fn constructs(self, lex: &Lexer<'s, T>, output: Output<C, T, T::Error>) -> bool;

    /// Construct an [`Output`] value using `self`, instructing the lexer how to
    /// proceed.
    fn construct(self, lex: &Lexer<'s, T>) -> (output: Output<C, T, T::Error>)
        ensures
            self.constructs(lex, output),
    ;
}

impl<'s, C, T> CallbackResult<'s, C, T> for C where T: Logos<'s> {
    open spec fn constructs(self, lex: &Lexer<'s, T>, output: Output<C, T, T::Error>) -> bool {
        output == Output::<C, T, T::Error>::Construct(self)
    }

    #[inline]
    fn construct(self, _lex: &Lexer<'s, T>) -> (output: Output<C, T, T::Error>) {
        Output::Construct(self)
    }
}

impl<'s, T> CallbackResult<'s, (), T> for bool where T: Logos<'s>, T::Error: Error<'s, T> {
    open spec fn constructs(self, lex: &Lexer<'s, T>, output: Output<(), T, T::Error>) -> bool {
        if self {
            output == Output::<(), T, T::Error>::Construct(())
        } else {
            output matches Output::Error(error) && call_ensures(
                <T::Error as Error<'s, T>>::unknown_token,
                (lex,),
                error,
            )
        }
    }

    #[inline]
    fn construct(self, lex: &Lexer<'s, T>) -> (output: Output<(), T, T::Error>) {
        match self {
            true => Output::Construct(()),
            false => Output::Error(Lexer::error(lex)),
        }
    }
}

impl<'s, C, T> CallbackResult<'s, C, T> for Output<C, T, T::Error> where T: Logos<'s> {
    open spec fn constructs(self, lex: &Lexer<'s, T>, output: Output<C, T, T::Error>) -> bool {
        output == self
    }

    #[inline(always)]
    fn construct(self, _lex: &Lexer<'s, T>) -> (output: Output<C, T, T::Error>) {
        self
    }
}

impl<'s, C, T> CallbackResult<'s, C, T> for Option<C> where T: Logos<'s>, T::Error: Error<'s, T> {
    open spec fn constructs(self, lex: &Lexer<'s, T>, output: Output<C, T, T::Error>) -> bool {
        match self {
            Some(contents) => output == Output::<C, T, T::Error>::Construct(contents),
            None => output matches Output::Error(error) && call_ensures(
                <T::Error as Error<'s, T>>::unknown_token,
                (lex,),
                error,
            ),
        }
    }

    #[inline]
    fn construct(self, lex: &Lexer<'s, T>) -> (output: Output<C, T, T::Error>) {
        match self {
            Some(contents) => Output::Construct(contents),
            None => Output::Error(Lexer::error(lex)),
        }
    }
}

impl<'s, C, T, E> CallbackResult<'s, C, T> for Result<C, E> where
    T: Logos<'s>,
    E: Into<T::Error>,
 {
    open spec fn constructs(self, lex: &Lexer<'s, T>, output: Output<C, T, T::Error>) -> bool {
        match self {
            Ok(contents) => output == Output::<C, T, T::Error>::Construct(contents),
            Err(error) => output matches Output::Error(converted) && call_ensures(
                <E as Into<T::Error>>::into,
                (error,),
                converted,
            ),
        }
    }

    #[inline]
    fn construct(self, _lex: &Lexer<'s, T>) -> (output: Output<C, T, T::Error>) {
        match self {
            Ok(contents) => Output::Construct(contents),
            Err(error) => Output::Error(error.into()),
        }
    }
}

impl<'s, T> CallbackResult<'s, (), T> for Skip where T: Logos<'s> {
    open spec fn constructs(self, lex: &Lexer<'s, T>, output: Output<(), T, T::Error>) -> bool {
        output is Skip
    }

    #[inline]
    fn construct(self, _lex: &Lexer<'s, T>) -> (output: Output<(), T, T::Error>) {
        Output::Skip
    }
}

impl<'s, C, T> CallbackResult<'s, C, T> for Filter<C> where T: Logos<'s> {
    open spec fn constructs(self, lex: &Lexer<'s, T>, output: Output<C, T, T::Error>) -> bool {
        match self {
            Filter::Accept(contents) => output == Output::<C, T, T::Error>::Construct(contents),
            Filter::Skip => output is Skip,
        }
    }

    #[inline]
    fn construct(self, _lex: &Lexer<'s, T>) -> (output: Output<C, T, T::Error>) {
        match self {
            Filter::Accept(contents) => Output::Construct(contents),
            Filter::Skip => Output::Skip,
        }
    }
}

} // verus!
