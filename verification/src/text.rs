//! The model of text that the counts are stated over: which characters
//! separate words, and how many words and lines a sequence of characters holds.

use vstd::prelude::*;

verus! {

/// Whether `c` separates words: the characters that Unicode gives the
/// property White_Space.
pub open spec fn is_space(c: char) -> bool {
    let u = c as u32;
    ||| 0x09 <= u <= 0x0D
    ||| u == 0x20
    ||| u == 0x85
    ||| u == 0xA0
    ||| u == 0x1680
    ||| 0x2000 <= u <= 0x200A
    ||| u == 0x2028
    ||| u == 0x2029
    ||| u == 0x202F
    ||| u == 0x205F
    ||| u == 0x3000
}

/// Tells whether `c` separates words.
pub fn is_whitespace(c: char) -> (res: bool)
    ensures
        res == is_space(c),
{
    let u: u32 = c as u32;
    (0x09 <= u && u <= 0x0D) || u == 0x20 || u == 0x85 || u == 0xA0 || u == 0x1680 || (0x2000 <= u
        && u <= 0x200A) || u == 0x2028 || u == 0x2029 || u == 0x202F || u == 0x205F || u == 0x3000
}

/// Whether a word starts at position `i` of `s`: the character there
/// separates no words, and it is the first of `s` or follows one that does.
pub open spec fn starts_word(s: Seq<char>, i: int) -> bool {
    &&& 0 <= i < s.len()
    &&& !is_space(s[i])
    &&& (i == 0 || is_space(s[i - 1]))
}

/// How many words start among the first `n` positions of `s`.
pub open spec fn words_before(s: Seq<char>, n: int) -> nat
    decreases n,
{
    if n <= 0 {
        0
    } else {
        words_before(s, n - 1) + if starts_word(s, n - 1) {
            1nat
        } else {
            0nat
        }
    }
}

/// The number of words in `s`: of maximal runs of characters that separate
/// no words.
pub open spec fn word_count(s: Seq<char>) -> nat {
    words_before(s, s.len() as int)
}

/// How many of the first `n` characters of `s` are line feeds.
pub open spec fn line_feeds_before(s: Seq<char>, n: int) -> nat
    decreases n,
{
    if n <= 0 {
        0
    } else {
        line_feeds_before(s, n - 1) + if 0 <= n - 1 < s.len() && s[n - 1] == '\n' {
            1nat
        } else {
            0nat
        }
    }
}

/// The number of lines in `s`: one for each line feed, and one more for what
/// follows the last line feed, if anything does.
pub open spec fn line_count(s: Seq<char>) -> nat {
    line_feeds_before(s, s.len() as int) + if s.len() > 0 && s.last() != '\n' {
        1nat
    } else {
        0nat
    }
}

/// No more words start, and no more line feeds stand, among the first `n`
/// positions than there are positions.
pub proof fn lemma_counts_bounded(s: Seq<char>, n: int)
    requires
        0 <= n <= s.len(),
    ensures
        words_before(s, n) <= n,
        line_feeds_before(s, n) <= n,
        n > 0 && s[n - 1] != '\n' ==> line_feeds_before(s, n) < n,
    decreases n,
{
    if n > 0 {
        lemma_counts_bounded(s, n - 1);
    }
}

/// What is counted among the first `n` positions of a text is the same in
/// every text that begins with it.
pub proof fn lemma_counts_of_prefix(head: Seq<char>, tail: Seq<char>, n: int)
    requires
        0 <= n <= head.len(),
    ensures
        words_before(head + tail, n) == words_before(head, n),
        line_feeds_before(head + tail, n) == line_feeds_before(head, n),
    decreases n,
{
    if n > 0 {
        lemma_counts_of_prefix(head, tail, n - 1);
        assert((head + tail)[n - 1] == head[n - 1]);
        if n > 1 {
            assert((head + tail)[n - 2] == head[n - 2]);
        }
    }
}

/// After a text that ends where a word cannot go on, what is counted among
/// the first `n` positions of the text that follows comes on top.
pub proof fn lemma_counts_of_suffix(head: Seq<char>, tail: Seq<char>, n: int)
    requires
        head.len() == 0 || is_space(head.last()),
        0 <= n <= tail.len(),
    ensures
        words_before(head + tail, head.len() + n) == words_before(head, head.len() as int)
            + words_before(tail, n),
        line_feeds_before(head + tail, head.len() + n) == line_feeds_before(
            head,
            head.len() as int,
        ) + line_feeds_before(tail, n),
    decreases n,
{
    if n == 0 {
        lemma_counts_of_prefix(head, tail, head.len() as int);
    } else {
        lemma_counts_of_suffix(head, tail, n - 1);
        let at = head.len() + n - 1;
        assert((head + tail)[at] == tail[n - 1]);
        if n > 1 {
            assert((head + tail)[at - 1] == tail[n - 2]);
        } else if head.len() > 0 {
            assert((head + tail)[at - 1] == head.last());
        }
    }
}

/// Counting line by line: after a text that is empty or ends in a line feed,
/// the words and the lines of the text that follows add to its own.
pub proof fn lemma_counts_add_after_line_feed(head: Seq<char>, tail: Seq<char>)
    requires
        head.len() == 0 || head.last() == '\n',
    ensures
        word_count(head + tail) == word_count(head) + word_count(tail),
        line_count(head + tail) == line_count(head) + line_count(tail),
        (head + tail).len() == head.len() + tail.len(),
{
    lemma_counts_of_suffix(head, tail, tail.len() as int);
    if tail.len() > 0 {
        assert((head + tail).last() == tail.last());
    } else {
        assert(head + tail =~= head);
    }
}

} // verus!
