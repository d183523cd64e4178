use logos::source::{Chunk, Source};

#[test]
fn read_str_chunks() {
    let foo = "foo";

    assert_eq!(foo.read::<u8>(2), Some(b'o'));
    assert_eq!(foo.read::<&[u8; 3]>(0), Some(b"foo"));
    assert_eq!(foo.read::<&[u8; 2]>(0), Some(b"fo"));
    assert_eq!(foo.read::<&[u8; 4]>(0), None); // Out of bounds
    assert_eq!(foo.read::<&[u8; 2]>(2), None); // Out of bounds
}

#[test]
fn read_byte_chunks() {
    let bytes: &[u8] = &[1, 2, 3, 4];

    assert_eq!(bytes.read::<u8>(0), Some(1));
    assert_eq!(bytes.read::<u8>(3), Some(4));
    assert_eq!(bytes.read::<u8>(4), None);
    assert_eq!(bytes.read::<&[u8; 2]>(1), Some(&[2, 3]));
    assert_eq!(bytes.read::<&[u8; 4]>(0), Some(&[1, 2, 3, 4]));
    assert_eq!(bytes.read::<&[u8; 4]>(1), None);
    assert_eq!(bytes.read::<&[u8; 0]>(4), Some(&[]));
    assert_eq!(bytes.read::<&[u8; 0]>(5), None);
}

#[test]
fn read_at_the_largest_offset_is_out_of_bounds() {
    let bytes: &[u8] = &[1, 2, 3];

    assert_eq!(bytes.read::<u8>(usize::MAX), None);
    assert_eq!(bytes.read::<&[u8; 2]>(usize::MAX - 1), None);
    assert_eq!("abc".read::<u8>(usize::MAX), None);
    assert_eq!("abc".read::<&[u8; 3]>(usize::MAX - 2), None);
}

#[test]
fn read_reads_inside_characters() {
    // 'é' is the two bytes 0xC3 0xA9.
    let text = "aé";

    assert_eq!(text.read::<u8>(1), Some(0xc3));
    assert_eq!(text.read::<u8>(2), Some(0xa9));
    assert_eq!(text.read::<&[u8; 3]>(0), Some(&[b'a', 0xc3, 0xa9]));
}

#[test]
fn read_unchecked_reads_what_read_reads() {
    let text = "hello";
    let bytes: &[u8] = b"hello";

    assert_eq!(text.read_unchecked::<u8>(4), b'o');
    assert_eq!(text.read_unchecked::<&[u8; 3]>(1), b"ell");
    assert_eq!(bytes.read_unchecked::<u8>(0), b'h');
    assert_eq!(bytes.read_unchecked::<&[u8; 5]>(0), b"hello");
}

#[test]
fn chunk_sizes() {
    assert_eq!(<u8 as Chunk>::SIZE, 1);
    assert_eq!(<&[u8; 0] as Chunk>::SIZE, 0);
    assert_eq!(<&[u8; 7] as Chunk>::SIZE, 7);
}

#[test]
fn chunk_from_window() {
    let window: &[u8] = &[9, 8, 7];

    assert_eq!(<u8 as Chunk>::from_ptr(&window[1..2]), 8);
    assert_eq!(<&[u8; 3] as Chunk>::from_ptr(window), &[9, 8, 7]);
    assert_eq!(<&[u8; 2] as Chunk>::from_ptr(&window[1..]), &[8, 7]);
}

#[test]
fn slice_str() {
    let foo = "It was the year when they finally immanentized the Eschaton.";

    assert_eq!(<str as Source>::slice(foo, 51..59), Some("Eschaton"));
    assert_eq!(<str as Source>::slice(foo, 0..0), Some(""));
    assert_eq!(<str as Source>::slice(foo, 60..60), Some(""));
    assert_eq!(<str as Source>::slice(foo, 0..60), Some(foo));
    assert_eq!(<str as Source>::slice(foo, 59..61), None);
    assert_eq!(<str as Source>::slice(foo, 61..61), None);
    assert_eq!(<str as Source>::slice(foo, 5..4)
        , None);
}

#[test]
fn slice_str_only_between_characters() {
    let text = "aé€";

    assert_eq!(<str as Source>::slice(text, 1..3), Some("é"));
    assert_eq!(<str as Source>::slice(text, 3..6), Some("€"));
    assert_eq!(<str as Source>::slice(text, 0..2), None);
    assert_eq!(<str as Source>::slice(text, 2..3), None);
    assert_eq!(<str as Source>::slice(text, 3..5), None);
}

#[test]
fn slice_unchecked_str() {
    let foo = "It was the year when they finally immanentized the Eschaton.";

    assert_eq!(<str as Source>::slice_unchecked(foo, 51..59), "Eschaton");
    assert_eq!(<str as Source>::slice_unchecked("aé€", 1..6), "é€");
    assert_eq!(<str as Source>::slice_unchecked("aé€", 6..6), "");
}

#[test]
fn slice_bytes() {
    let bytes: &[u8] = &[0, 1, 2, 3, 4];

    assert_eq!(Source::slice(bytes, 1..3), Some(&[1u8, 2][..]));
    assert_eq!(Source::slice(bytes, 5..5), Some(&[][..]));
    assert_eq!(Source::slice(bytes, 0..5), Some(bytes));
    assert_eq!(Source::slice(bytes, 3..6), None);
    assert_eq!(Source::slice(bytes, 3..2), None);
    assert_eq!(Source::slice_unchecked(bytes, 2..5), &[2u8, 3, 4][..]);
}

#[test]
fn boundaries_of_text() {
    let text = "aé€";

    assert!(text.is_boundary(0));
    assert!(text.is_boundary(1));
    assert!(!text.is_boundary(2));
    assert!(text.is_boundary(3));
    assert!(!text.is_boundary(4));
    assert!(!text.is_boundary(5));
    assert!(text.is_boundary(6));
    assert!(!text.is_boundary(7));
}

#[test]
fn boundaries_of_bytes() {
    let bytes: &[u8] = &[0xc3, 0xa9, 0xff];

    assert!(bytes.is_boundary(0));
    assert!(bytes.is_boundary(1));
    assert!(bytes.is_boundary(3));
    assert!(!bytes.is_boundary(4));
}

#[test]
fn find_boundary_in_text_moves_to_the_next_character() {
    let text = "aé€";

    assert_eq!(Source::find_boundary(text, 0), 0);
    assert_eq!(Source::find_boundary(text, 1), 1);
    assert_eq!(Source::find_boundary(text, 2), 3);
    assert_eq!(Source::find_boundary(text, 4), 6);
    assert_eq!(Source::find_boundary(text, 5), 6);
    assert_eq!(Source::find_boundary(text, 6), 6);
}

#[test]
fn find_boundary_in_bytes_is_the_index() {
    let bytes: &[u8] = &[0xc3, 0xa9, 0xff];

    assert_eq!(Source::find_boundary(bytes, 0), 0);
    assert_eq!(Source::find_boundary(bytes, 1), 1);
    assert_eq!(Source::find_boundary(bytes, 3), 3);
}

#[test]
fn lengths() {
    let bytes: &[u8] = &[1, 2, 3];
    let empty: &[u8] = &[];

    assert_eq!(Source::len("aé€"), 6);
    assert_eq!(Source::len(bytes), 3);
    assert!(!Source::is_empty("a"));
    assert!(Source::is_empty(""));
    assert!(Source::is_empty(empty));
    assert!(!Source::is_empty(bytes));
}
