//! Input buffers that a lexer can read from.
//!
//! A [`Source`] is an immutable run of bytes together with a rule that says at
//! which offsets it may be cut. A byte slice may be cut anywhere; a string slice
//! only between characters. A [`Chunk`] is a fixed-width unit that is read from a
//! source in one step.

use core::ops::Range;
use vstd::prelude::*;

verus! {

broadcast use vstd::slice::group_slice_axioms;

/// A fixed, statically sized unit of bytes that can be read from a [`Source`].
///
/// Implemented for `u8` and for borrowed byte arrays of any size.
pub trait Chunk<'source>: Sized + Copy + PartialEq + Eq {
    /// The size of the chunk, in bytes.
    const SIZE: usize;

    /// The size of the chunk, in bytes, as contracts speak of it.
    spec fn size() -> nat;

    /// [`Chunk::SIZE`] is the size of the chunk.
    proof fn lemma_size()
        ensures
            Self::SIZE == Self::size(),
    ;

    /// The bytes that the chunk holds, in source order.
    spec fn window(&self) -> Seq<u8>;

    /// Builds the chunk from the borrowed window that `ptr` points at. The
    /// window has to be exactly [`Chunk::SIZE`] bytes wide.
    fn from_ptr(ptr: &'source [u8]) -> (chunk: Self)
        requires
            ptr@.len() == Self::size(),
        ensures
            chunk.window() == ptr@,
    ;
}

impl<'source> Chunk<'source> for u8 {
    const SIZE: usize = 1;

    open spec fn size() -> nat {
        1
    }

    proof fn lemma_size() {
    }

    open spec fn window(&self) -> Seq<u8> {
        seq![*self]
    }

    #[inline]
    fn from_ptr(ptr: &'source [u8]) -> (chunk: Self) {
        let byte = ptr[0];
        assert(seq![byte] =~= ptr@);
        byte
    }
}

/// The conversion `TryFrom<&[u8]> for &[u8; N]` of core: it gives the slice back
/// as an array reference exactly when the slice is `N` bytes long, and the array
/// then holds the bytes of the slice.
#[verifier::external_body]
fn array_window<'a, const N: usize>(bytes: &'a [u8]) -> (array: Option<&'a [u8; N]>)
    ensures
        array is Some <==> bytes@.len() == N,
        array matches Some(a) ==> a@ == bytes@,
{
    <&[u8; N]>::try_from(bytes).ok()
}

impl<'source, const SIZE: usize> Chunk<'source> for &'source [u8; SIZE] {
    const SIZE: usize = SIZE;

    open spec fn size() -> nat {
        SIZE as nat
    }

    proof fn lemma_size() {
    }

    open spec fn window(&self) -> Seq<u8> {
        (**self)@
    }

    #[inline]
    fn from_ptr(ptr: &'source [u8]) -> (chunk: Self) {
        match array_window::<SIZE>(ptr) {
            Some(array) => array,
            None => vstd::pervasive::unreached(),
        }
    }
}

/// Types the lexer can read from.
///
/// Implemented for `str` and `[u8]`. The model of a source is its
/// [`content`](Source::content), a sequence of bytes, and its
/// [`boundary`](Source::boundary) predicate, which says where the content may be
/// cut.
pub trait Source {
    /// A slice of this `Source`.
    type Slice: ?Sized + PartialEq + Eq + core::fmt::Debug;

    /// The bytes of the source.
    spec fn content(&self) -> Seq<u8>;

    /// The bytes of a slice that was cut out of a source of this kind.
    spec fn slice_content(slice: &Self::Slice) -> Seq<u8>;

    /// Whether the source may be cut at `index`.
    spec fn boundary(&self, index: int) -> bool;

    /// Both ends of a source are boundaries, and no boundary lies outside it.
    proof fn lemma_boundaries(&self)
        ensures
            self.boundary(0),
            self.boundary(self.content().len() as int),
            forall|index: int| #[trigger] self.boundary(index) ==> 0 <= index <= self.content().len(),
    ;

    /// The length of the source, in bytes.
    fn len(&self) -> (n: usize)
        ensures
            n == self.content().len(),
    ;

    /// Whether the source is empty.
    fn is_empty(&self) -> (empty: bool)
        ensures
            empty <==> self.content().len() == 0,
    {
        self.len() == 0
    }

    /// Reads a chunk of bytes at `offset`. Returns `None` when the chunk would
    /// reach past the end of the source.
    fn read<'a, C>(&'a self, offset: usize) -> (chunk: Option<C>) where C: Chunk<'a>
        ensures
            chunk is Some <==> offset + C::size() <= self.content().len(),
            chunk matches Some(c) ==> c.window() == self.content().subrange(
                offset as int,
                offset + C::size(),
            ),
    ;

    /// Reads a chunk of bytes at `offset` that the caller knows to lie within
    /// the source.
    fn read_unchecked<'a, C>(&'a self, offset: usize) -> (chunk: C) where C: Chunk<'a>
        requires
            offset + C::size() <= self.content().len(),
        ensures
            chunk.window() == self.content().subrange(offset as int, offset + C::size()),
    ;

    /// The slice of input that `range` delimits, or `None` if `range` is
    /// reversed, reaches past the end or does not start and end on boundaries.
    fn slice(&self, range: Range<usize>) -> (slice: Option<&Self::Slice>)
        ensures
            slice is Some <==> range.start <= range.end && self.boundary(range.start as int)
                && self.boundary(range.end as int),
            slice matches Some(s) ==> Self::slice_content(s) == self.content().subrange(
                range.start as int,
                range.end as int,
            ),
    ;

    /// The slice of input that `range` delimits, for a range that the caller
    /// knows to be in order and to start and end on boundaries.
    fn slice_unchecked(&self, range: Range<usize>) -> (slice: &Self::Slice)
        requires
            range.start <= range.end,
            self.boundary(range.start as int),
            self.boundary(range.end as int),
        ensures
            Self::slice_content(slice) == self.content().subrange(
                range.start as int,
                range.end as int,
            ),
    ;

    /// The closest boundary of this source at or after `index`.
    ///
    /// For binary sources every offset up to the length is a boundary, so this
    /// is `index` itself. A string slice can only be cut between characters.
    fn find_boundary(&self, index: usize) -> (found: usize)
        requires
            index <= self.content().len(),
        ensures
            index <= found,
            self.boundary(found as int),
            forall|skipped: int| index <= skipped < found ==> !self.boundary(skipped),
    ;

    /// Whether `index` is a boundary of this source: it is not larger than the
    /// length, and cutting there breaks none of the source's own rules.
    fn is_boundary(&self, index: usize) -> (valid: bool)
        ensures
            valid == self.boundary(index as int),
    ;
}

/// A prefix that ends on a character boundary is valid UTF-8 itself, and the
/// character boundaries of the whole text that lie in the prefix are boundaries
/// of the prefix too.
proof fn lemma_prefix_boundary(bytes: Seq<u8>, start: int, end: int)
    requires
        vstd::utf8::valid_utf8(bytes),
        vstd::utf8::is_char_boundary(bytes, start),
        vstd::utf8::is_char_boundary(bytes, end),
        start <= end,
    ensures
        0 <= start <= end <= bytes.len(),
        vstd::utf8::valid_utf8(bytes.subrange(0, end)),
        vstd::utf8::is_char_boundary(bytes.subrange(0, end), start),
{
    let prefix = bytes.subrange(0, end);
    vstd::utf8::valid_utf8_split(bytes, end);
    if start == end {
        vstd::utf8::is_char_boundary_start_end_of_seq(prefix);
    } else {
        vstd::utf8::is_char_boundary_iff_not_is_continuation_byte(bytes, start);
        vstd::utf8::is_char_boundary_iff_not_is_continuation_byte(prefix, start);
    }
}

/// Text that is cut at two of its character boundaries is cut between
/// characters: what lies between the cuts is valid UTF-8 itself, and so is what
/// lies behind the second cut. No character is split.
pub proof fn lemma_text_is_cut_between_characters(text: &str, start: int, end: int)
    requires
        text.boundary(start),
        text.boundary(end),
        start <= end,
    ensures
        0 <= start <= end <= text.content().len(),
        vstd::utf8::valid_utf8(text.content().subrange(start, end)),
        vstd::utf8::valid_utf8(text.content().subrange(end, text.content().len() as int)),
{
    let bytes = text.content();
    let prefix = bytes.subrange(0, end);
    vstd::utf8::encode_utf8_valid_utf8(text@);
    lemma_prefix_boundary(bytes, start, end);
    vstd::utf8::valid_utf8_split(bytes, end);
    vstd::utf8::valid_utf8_split(prefix, start);
    assert(prefix.subrange(start, prefix.len() as int) =~= bytes.subrange(start, end));
}

impl Source for str {
    type Slice = str;

    open spec fn content(&self) -> Seq<u8> {
        vstd::utf8::encode_utf8(self@)
    }

    open spec fn slice_content(slice: &str) -> Seq<u8> {
        vstd::utf8::encode_utf8(slice@)
    }

    open spec fn boundary(&self, index: int) -> bool {
        vstd::utf8::is_char_boundary(self.content(), index)
    }

    proof fn lemma_boundaries(&self) {
        vstd::utf8::encode_utf8_valid_utf8(self@);
        vstd::utf8::is_char_boundary_start_end_of_seq(self.content());
    }

    #[inline]
    fn len(&self) -> (n: usize) {
        self.as_bytes().len()
    }

    #[inline]
    fn read<'a, C>(&'a self, offset: usize) -> (chunk: Option<C>) where C: Chunk<'a> {
        proof {
            C::lemma_size();
        }
        let bytes: &'a [u8] = self.as_bytes();
        let len = bytes.len();
        match offset.checked_add(C::SIZE) {
            Some(end) => {
                if end <= len {
                    Some(C::from_ptr(&bytes[offset..end]))
                } else {
                    None
                }
            },
            None => None,
        }
    }

    #[inline]
    fn read_unchecked<'a, C>(&'a self, offset: usize) -> (chunk: C) where C: Chunk<'a> {
        proof {
            C::lemma_size();
        }
        let bytes: &'a [u8] = self.as_bytes();
        assert(offset + C::SIZE <= bytes.len());
        C::from_ptr(&bytes[offset..offset + C::SIZE])
    }

    #[inline]
    fn slice(&self, range: Range<usize>) -> (slice: Option<&str>) {
        if range.start <= range.end && self.is_char_boundary(range.start) && self.is_char_boundary(
            range.end,
        ) {
            Some(Source::slice_unchecked(self, range))
        } else {
            None
        }
    }

    #[inline]
    fn slice_unchecked(&self, range: Range<usize>) -> (slice: &str) {
        proof {
            vstd::utf8::encode_utf8_valid_utf8(self@);
            lemma_prefix_boundary(self.content(), range.start as int, range.end as int);
        }
        let (head, _) = self.split_at(range.end);
        let (_, body) = head.split_at(range.start);
        assert(Self::slice_content(body) =~= self.content().subrange(
            range.start as int,
            range.end as int,
        ));
        body
    }

    #[inline]
    fn find_boundary(&self, index: usize) -> (found: usize) {
        proof {
            self.lemma_boundaries();
        }
        let len = self.as_bytes().len();
        let mut found = index;
        while !self.is_char_boundary(found)
            invariant
                index <= found <= self.content().len() == len,
                self.boundary(self.content().len() as int),
                forall|skipped: int| index <= skipped < found ==> !self.boundary(skipped),
            decreases self.content().len() - found,
        {
            found += 1;
        }
        found
    }

    #[inline]
    fn is_boundary(&self, index: usize) -> (valid: bool) {
        self.is_char_boundary(index)
    }
}

impl Source for [u8] {
    type Slice = [u8];

    open spec fn content(&self) -> Seq<u8> {
        self@
    }

    open spec fn slice_content(slice: &[u8]) -> Seq<u8> {
        slice@
    }

    open spec fn boundary(&self, index: int) -> bool {
        0 <= index <= self@.len()
    }

    proof fn lemma_boundaries(&self) {
    }

    #[inline]
    fn len(&self) -> (n: usize) {
        self.len()
    }

    #[inline]
    fn read<'a, C>(&'a self, offset: usize) -> (chunk: Option<C>) where C: Chunk<'a> {
        proof {
            C::lemma_size();
        }
        let len = self.len();
        match offset.checked_add(C::SIZE) {
            Some(end) => {
                if end <= len {
                    Some(C::from_ptr(&self[offset..end]))
                } else {
                    None
                }
            },
            None => None,
        }
    }

    #[inline]
    fn read_unchecked<'a, C>(&'a self, offset: usize) -> (chunk: C) where C: Chunk<'a> {
        proof {
            C::lemma_size();
        }
        assert(offset + C::SIZE <= self.len());
        C::from_ptr(&self[offset..offset + C::SIZE])
    }

    #[inline]
    fn slice(&self, range: Range<usize>) -> (slice: Option<&[u8]>) {
        if range.start <= range.end && range.end <= self.len() {
            Some(Source::slice_unchecked(self, range))
        } else {
            None
        }
    }

    #[inline]
    fn slice_unchecked(&self, range: Range<usize>) -> (slice: &[u8]) {
        &self[range.start..range.end]
    }

    #[inline]
    fn find_boundary(&self, index: usize) -> (found: usize)
        ensures
            found == index,
    {
        index
    }

    #[inline]
    fn is_boundary(&self, index: usize) -> (valid: bool) {
        index <= self.len()
    }
}

} // verus!
