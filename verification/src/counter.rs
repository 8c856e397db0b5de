//! Counting the lines, words, bytes and characters of one input.

use vstd::prelude::*;
use vstd::std_specs::iter::IteratorSpec;
use vstd::utf8::{
    decode_utf8, encode_scalar, encode_utf8, encode_utf8_decode_utf8, encode_utf8_valid_utf8,
    valid_utf8,
};
use crate::encoding::{
    lemma_chars_within_bytes, lemma_decode_concat, lemma_encode_concat, lemma_line_feed_is_last,
    lemma_split_after_line_feed, LINE_FEED,
};
use crate::text::{
    is_space, is_whitespace, lemma_counts_add_after_line_feed, lemma_counts_bounded, line_count,
    line_feeds_before, word_count, words_before,
};

verus! {

/// The four counts of one input.
#[derive(Debug, Clone, Copy, PartialEq, Eq, Structural)]
pub struct FileInfo {
    pub num_lines: usize,
    pub num_words: usize,
    pub num_bytes: usize,
    pub num_chars: usize,
}

/// Why an input could not be counted.
#[derive(Debug, Clone, Copy, PartialEq, Eq, Structural)]
pub enum CountError {
    /// The bytes are not the UTF-8 encoding of any text.
    InvalidText,
}

/// Four counts as numbers without a limit: what a `FileInfo` stands for.
pub ghost struct Counts {
    pub lines: nat,
    pub words: nat,
    pub bytes: nat,
    pub chars: nat,
}

impl Counts {
    /// No lines, words, bytes or characters.
    pub open spec fn zero() -> Counts {
        Counts { lines: 0, words: 0, bytes: 0, chars: 0 }
    }

    /// The sums of these counts and `other`, count by count.
    pub open spec fn plus(self, other: Counts) -> Counts {
        Counts {
            lines: self.lines + other.lines,
            words: self.words + other.words,
            bytes: self.bytes + other.bytes,
            chars: self.chars + other.chars,
        }
    }
}

impl View for FileInfo {
    type V = Counts;

    open spec fn view(&self) -> Counts {
        Counts {
            lines: self.num_lines as nat,
            words: self.num_words as nat,
            bytes: self.num_bytes as nat,
            chars: self.num_chars as nat,
        }
    }
}

/// The counts of `text`, which is stored in `bytes` bytes.
pub open spec fn counts_of_text(text: Seq<char>, bytes: nat) -> Counts {
    Counts { lines: line_count(text), words: word_count(text), bytes, chars: text.len() }
}

/// The counts of the text that `bytes` encode, if they encode one.
pub open spec fn counts_of(bytes: Seq<u8>) -> Option<Counts> {
    if valid_utf8(bytes) {
        Some(counts_of_text(decode_utf8(bytes), bytes.len()))
    } else {
        None
    }
}

/// Whether `res` is what counting `content` gives: the counts of the text that
/// the bytes encode, or the error where they encode none.
pub open spec fn is_count_of(content: Seq<u8>, res: Result<FileInfo, CountError>) -> bool {
    match res {
        Ok(info) => counts_of(content) == Some(info@),
        Err(error) => counts_of(content) is None && error == CountError::InvalidText,
    }
}

/// Reads `bytes` as UTF-8 text with `core::str::from_utf8`. What is taken on
/// trust of that function: the text comes back exactly when the bytes are
/// valid UTF-8, and its encoding is then those bytes.
#[verifier::external_body]
fn text_of(bytes: &[u8]) -> (res: Option<&str>)
    ensures
        res is Some <==> valid_utf8(bytes@),
        res matches Some(text) ==> encode_utf8(text@) == bytes@,
{
    core::str::from_utf8(bytes).ok()
}

/// Counts the lines, words and characters of `text` in one pass over it.
fn scan(text: &str) -> (res: (usize, usize, usize))
    requires
        text@.len() <= usize::MAX,
    ensures
        res.0 == line_count(text@),
        res.1 == word_count(text@),
        res.2 == text@.len(),
{
    let mut lines: usize = 0;
    let mut words: usize = 0;
    let mut chars: usize = 0;
    let mut in_word = false;
    let mut open_line = false;
    let mut rest = text.chars();
    loop
        invariant
            text@.len() <= usize::MAX,
            chars <= text@.len(),
            rest.remaining() == text@.skip(chars as int),
            lines == line_feeds_before(text@, chars as int),
            words == words_before(text@, chars as int),
            in_word == (chars > 0 && !is_space(text@[chars - 1])),
            open_line == (chars > 0 && text@[chars - 1] != '\n'),
        ensures
            chars == text@.len(),
        decreases text@.len() - chars,
    {
        proof {
            lemma_counts_bounded(text@, chars as int);
        }
        match rest.next() {
            None => {
                break ;
            },
            Some(c) => {
                assert(c == text@[chars as int]);
                if c == '\n' {
                    lines = lines + 1;
                }
                let space = is_whitespace(c);
                if !space && !in_word {
                    words = words + 1;
                }
                in_word = !space;
                open_line = c != '\n';
                chars = chars + 1;
            },
        }
    }
    proof {
        lemma_counts_bounded(text@, chars as int);
    }
    if open_line {
        lines = lines + 1;
    }
    (lines, words, chars)
}

/// Counts one input, given as the bytes read from it: its lines, its words,
/// its bytes, and the characters that the bytes encode.
///
/// Bytes that are not valid UTF-8 are an error, and nothing is counted.
pub fn count(content: &[u8]) -> (res: Result<FileInfo, CountError>)
    ensures
        is_count_of(content@, res),
{
    let num_bytes = content.len();
    match text_of(content) {
        None => Err(CountError::InvalidText),
        Some(text) => {
            proof {
                encode_utf8_decode_utf8(text@);
                lemma_chars_within_bytes(content@);
            }
            let (num_lines, num_words, num_chars) = scan(text);
            Ok(FileInfo { num_lines, num_words, num_bytes, num_chars })
        },
    }
}

/// The counts of `text` as its UTF-8 encoding stores it.
pub open spec fn text_counts(text: Seq<char>) -> Counts {
    counts_of_text(text, encode_utf8(text).len())
}

/// Counting the same content again gives the same counts, or the same
/// failure: the result depends on nothing but the bytes.
pub proof fn law_same_content_same_counts(
    first: Seq<u8>,
    second: Seq<u8>,
    first_result: Result<FileInfo, CountError>,
    second_result: Result<FileInfo, CountError>,
)
    requires
        first =~= second,
        is_count_of(first, first_result),
        is_count_of(second, second_result),
    ensures
        first_result == second_result,
{
}

/// Every text can be counted from its encoding, and the counts are those of
/// the text.
pub proof fn law_counts_of_encoded_text(text: Seq<char>)
    ensures
        counts_of(encode_utf8(text)) == Some(text_counts(text)),
{
    encode_utf8_valid_utf8(text);
    encode_utf8_decode_utf8(text);
}

/// No input has more lines or words than characters, nor more characters
/// than bytes.
pub proof fn law_counts_ordered(bytes: Seq<u8>)
    requires
        valid_utf8(bytes),
    ensures
        counts_of(bytes) matches Some(counts) && counts.lines <= counts.chars && counts.words
            <= counts.chars && counts.chars <= counts.bytes && counts.bytes == bytes.len(),
{
    let text = decode_utf8(bytes);
    lemma_chars_within_bytes(bytes);
    lemma_counts_bounded(text, text.len() as int);
}

/// Counting line by line: where the first of two runs of bytes is empty or
/// ends with a line feed, the two in a row can be counted exactly when each
/// can, and their counts are then the sums of the counts of each.
pub proof fn law_counts_add_line_by_line(head: Seq<u8>, tail: Seq<u8>)
    requires
        head.len() == 0 || head.last() == LINE_FEED,
    ensures
        counts_of(head + tail) == match (counts_of(head), counts_of(tail)) {
            (Some(first), Some(second)) => Some(first.plus(second)),
            _ => None,
        },
{
    if head.len() == 0 {
        assert(head + tail =~= tail);
        assert(decode_utf8(head) =~= Seq::<char>::empty());
        if valid_utf8(tail) {
            lemma_counts_add_after_line_feed(decode_utf8(head), decode_utf8(tail));
            assert(decode_utf8(head) + decode_utf8(tail) =~= decode_utf8(tail));
        }
    } else if valid_utf8(head) && valid_utf8(tail) {
        lemma_decode_concat(head, tail);
        lemma_line_feed_is_last(head);
        lemma_counts_add_after_line_feed(decode_utf8(head), decode_utf8(tail));
    } else if valid_utf8(head + tail) {
        lemma_split_after_line_feed(head, tail);
    }
}

/// One character and a line feed make one line (two where the character is
/// itself a line feed) of two characters, with one word unless the character
/// separates words, and with as many bytes as the character's encoding and
/// one more: more bytes than characters exactly when the character is not
/// ASCII.
pub proof fn law_one_character_line(c: char)
    ensures
        counts_of(encode_utf8(seq![c, '\n'])) == Some(Counts {
            lines: if c == '\n' {
                2
            } else {
                1
            },
            words: if is_space(c) {
                0
            } else {
                1
            },
            bytes: encode_scalar(c as u32).len() + 1,
            chars: 2,
        }),
        1 <= encode_scalar(c as u32).len() <= 4,
        encode_scalar(c as u32).len() > 1 <==> c as u32 > 0x7F,
{
    let text = seq![c, '\n'];
    law_counts_of_encoded_text(text);
    assert(line_count(text) == if c == '\n' {
        2nat
    } else {
        1nat
    }) by {
        reveal_with_fuel(line_feeds_before, 3);
    }
    assert(word_count(text) == if is_space(c) {
        0nat
    } else {
        1nat
    }) by {
        reveal_with_fuel(words_before, 3);
    }
    assert(encode_utf8(text).len() == encode_scalar(c as u32).len() + 1) by {
        lemma_encode_concat(seq![c], seq!['\n']);
        assert(text =~= seq![c] + seq!['\n']);
        reveal_with_fuel(encode_utf8, 2);
        assert(seq![c].drop_first() =~= Seq::<char>::empty());
        assert(seq!['\n'].drop_first() =~= Seq::<char>::empty());
    }
}

} // verus!
