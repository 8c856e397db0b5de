//! Facts about UTF-8 that counting rests on: how the encoding of a text
//! relates to the encodings of its parts, and where a line feed byte stands.

use vstd::prelude::*;
use vstd::utf8::{
    decode_utf8, decode_utf8_encode_utf8, encode_utf8, encode_utf8_decode_utf8,
    encode_utf8_valid_utf8, is_ascii_chars, is_ascii_chars_encode_utf8, is_char_boundary,
    is_char_boundary_iff_not_is_continuation_byte, length_of_first_scalar, pop_first_scalar,
    valid_utf8, valid_utf8_split,
};

verus! {

/// The byte that encodes a line feed.
pub const LINE_FEED: u8 = 0x0A;

/// Text has no more characters than its encoding has bytes.
pub proof fn lemma_chars_within_bytes(bytes: Seq<u8>)
    requires
        valid_utf8(bytes),
    ensures
        decode_utf8(bytes).len() <= bytes.len(),
    decreases bytes.len(),
{
    if bytes.len() > 0 {
        let rest = pop_first_scalar(bytes);
        assert(1 <= length_of_first_scalar(bytes) <= bytes.len());
        lemma_chars_within_bytes(rest);
    }
}

/// The encoding of two texts in a row is the encoding of the first, then that
/// of the second.
pub proof fn lemma_encode_concat(head: Seq<char>, tail: Seq<char>)
    ensures
        encode_utf8(head + tail) == encode_utf8(head) + encode_utf8(tail),
    decreases head.len(),
{
    if head.len() == 0 {
        assert(head + tail =~= tail);
        assert(encode_utf8(head) + encode_utf8(tail) =~= encode_utf8(tail));
    } else {
        lemma_encode_concat(head.drop_first(), tail);
        assert((head + tail).drop_first() =~= head.drop_first() + tail);
        assert((head + tail)[0] == head[0]);
        assert(encode_utf8(head + tail) =~= encode_utf8(head) + encode_utf8(tail));
    }
}

/// Two encodings in a row encode the first text, then the second.
pub proof fn lemma_decode_concat(head: Seq<u8>, tail: Seq<u8>)
    requires
        valid_utf8(head),
        valid_utf8(tail),
    ensures
        valid_utf8(head + tail),
        decode_utf8(head + tail) == decode_utf8(head) + decode_utf8(tail),
{
    let first = decode_utf8(head);
    let second = decode_utf8(tail);
    decode_utf8_encode_utf8(head);
    decode_utf8_encode_utf8(tail);
    lemma_encode_concat(first, second);
    encode_utf8_valid_utf8(first + second);
    encode_utf8_decode_utf8(first + second);
}

/// A line feed is encoded by the one byte `LINE_FEED`.
pub proof fn lemma_line_feed_encoding()
    ensures
        encode_utf8(seq!['\n']) == seq![LINE_FEED],
        valid_utf8(seq![LINE_FEED]),
        decode_utf8(seq![LINE_FEED]) == seq!['\n'],
{
    let text = seq!['\n'];
    assert(is_ascii_chars(text));
    is_ascii_chars_encode_utf8(text);
    assert(text[0] as u8 == LINE_FEED);
    assert(encode_utf8(text) =~= seq![LINE_FEED]);
    encode_utf8_valid_utf8(text);
    encode_utf8_decode_utf8(text);
}

/// In an encoding, a character that starts with an ASCII byte ends with it:
/// the next character starts at the next byte.
pub proof fn lemma_boundary_after_ascii(bytes: Seq<u8>, at: int)
    requires
        valid_utf8(bytes),
        0 <= at < bytes.len(),
        is_char_boundary(bytes, at),
        bytes[at] <= 0x7f,
    ensures
        is_char_boundary(bytes, at + 1),
    decreases bytes.len(),
{
    let width = length_of_first_scalar(bytes);
    let rest = pop_first_scalar(bytes);
    assert(1 <= width <= bytes.len());
    if at == 0 {
        assert(width == 1);
        assert(is_char_boundary(rest, 0));
    } else {
        assert(at >= width) by {
            if at < width {
                assert(!is_char_boundary(rest, at - width));
            }
        }
        assert(rest[at - width] == bytes[at]);
        lemma_boundary_after_ascii(rest, at - width);
    }
}

/// An encoding that is cut after a line feed byte is cut between two
/// characters: both parts are encodings.
pub proof fn lemma_split_after_line_feed(head: Seq<u8>, tail: Seq<u8>)
    requires
        head.len() > 0,
        head.last() == LINE_FEED,
        valid_utf8(head + tail),
    ensures
        valid_utf8(head),
        valid_utf8(tail),
{
    let whole = head + tail;
    let cut = head.len() as int;
    assert(whole[cut - 1] == LINE_FEED);
    is_char_boundary_iff_not_is_continuation_byte(whole, cut - 1);
    lemma_boundary_after_ascii(whole, cut - 1);
    valid_utf8_split(whole, cut);
    assert(whole.subrange(0, cut) =~= head);
    assert(whole.subrange(cut, whole.len() as int) =~= tail);
}

/// An encoding that ends with a line feed byte encodes a text that ends with
/// a line feed.
pub proof fn lemma_line_feed_is_last(bytes: Seq<u8>)
    requires
        valid_utf8(bytes),
        bytes.len() > 0,
        bytes.last() == LINE_FEED,
    ensures
        decode_utf8(bytes).len() > 0,
        decode_utf8(bytes).last() == '\n',
{
    let front = bytes.drop_last();
    let back = seq![LINE_FEED];
    assert(bytes =~= front + back);
    lemma_line_feed_encoding();
    is_char_boundary_iff_not_is_continuation_byte(bytes, bytes.len() - 1);
    valid_utf8_split(bytes, bytes.len() - 1);
    assert(bytes.subrange(0, bytes.len() - 1) =~= front);
    lemma_decode_concat(front, back);
}

} // verus!
