//! Counting over decoded text.

use vstd::prelude::*;
use vstd::string::*;
use vstd::utf8::*;

verus! {

/// The error type of the metric functions. No metric fails on text held in
/// memory; the type is kept so that a metric read from elsewhere could.
#[verifier::external_type_specification]
#[verifier::external_body]
pub struct ExIoError(std::io::Error);

/// The number of line feeds in `s`.
pub open spec fn newlines(s: Seq<char>) -> nat {
    s.filter(|c: char| c == '\n').len()
}

/// What the line metric reports: the number of pieces that splitting `s`
/// on line feeds yields, which is one more than the number of line feeds.
pub open spec fn line_count_of(s: Seq<char>) -> nat {
    newlines(s) + 1
}

/// Counts the pieces of `file` between line feeds; text without a line
/// feed is one line, and a trailing line feed starts one more.
pub fn get_line_count(file: &String) -> (r: Result<usize, std::io::Error>)
    requires
        file@.len() < usize::MAX,
    ensures
        r == Ok::<usize, std::io::Error>(line_count_of(file@) as usize),
{
    let mut n: usize = 1;
    for c in it: file.chars()
        invariant
            it.seq() == file@,
            it.index() <= file@.len() < usize::MAX,
            n == newlines(file@.take(it.index() as int)) + 1,
            n <= it.index() + 1,
    {
        proof {
            reveal(Seq::filter);
            assert(file@.take(it.index() + 1).drop_last() == file@.take(it.index() as int));
        }
        if c == '\n' {
            n = n + 1;
        }
    }
    proof {
        assert(file@.take(file@.len() as int) == file@);
    }
    Ok(n)
}


/// The characters that the character metric counts: all but line feed and
/// carriage return.
pub open spec fn is_counted_char(c: char) -> bool {
    c != '\n' && c != '\r'
}

/// What the character metric reports: the number of characters of `s` that
/// are neither a line feed nor a carriage return.
pub open spec fn char_count_of(s: Seq<char>) -> nat {
    s.filter(|c: char| is_counted_char(c)).len()
}

/// Every character takes at least one byte in UTF-8.
proof fn lemma_chars_fit_in_bytes(s: Seq<char>)
    ensures
        s.len() <= encode_utf8(s).len(),
    decreases s.len(),
{
    if s.len() > 0 {
        lemma_chars_fit_in_bytes(s.drop_first());
    }
}

/// The number of characters of a string fits in `usize`, since its bytes do.
fn char_len_bound(file: &String)
    ensures
        file@.len() <= usize::MAX,
{
    let bytes = file.as_str().as_bytes();
    let _n: usize = bytes.len();
    proof {
        lemma_chars_fit_in_bytes(file@);
    }
}

/// Counts the characters of `file` other than line feeds and carriage
/// returns.
pub fn get_char_count(file: &String) -> (r: Result<usize, std::io::Error>)
    ensures
        r == Ok::<usize, std::io::Error>(char_count_of(file@) as usize),
{
    char_len_bound(file);
    let mut n: usize = 0;
    for c in it: file.chars()
        invariant
            it.seq() == file@,
            it.index() <= file@.len() <= usize::MAX,
            n == char_count_of(file@.take(it.index() as int)),
            n <= it.index(),
    {
        proof {
            reveal(Seq::filter);
            assert(file@.take(it.index() + 1).drop_last() == file@.take(it.index() as int));
        }
        if c != '\n' && c != '\r' {
            n = n + 1;
        }
    }
    proof {
        assert(file@.take(file@.len() as int) == file@);
    }
    Ok(n)
}

/// Whether a character is white space, as `char::is_whitespace` decides.
pub uninterp spec fn white_space(c: char) -> bool;

/// Relies on `char::is_whitespace`: whether `c` has Unicode's White_Space
/// property, which depends on `c` alone.
#[verifier::external_body]
fn is_white_space(c: char) -> (r: bool)
    ensures
        r == white_space(c),
{
    c.is_whitespace()
}

/// Whether a word begins at position `i` of `s`: a character that is not
/// white space, at the start of `s` or right after white space.
pub open spec fn starts_word(s: Seq<char>, i: int) -> bool {
    !white_space(s[i]) && (i == 0 || white_space(s[i - 1]))
}

/// What the word metric reports: the number of maximal runs of characters
/// that are not white space, counted by the positions where one begins.
pub open spec fn word_count_of(s: Seq<char>) -> nat
    decreases s.len(),
{
    if s.len() == 0 {
        0
    } else {
        word_count_of(s.drop_last()) + if starts_word(s, s.len() - 1) {
            1nat
        } else {
            0nat
        }
    }
}

/// Counts the words of `file`: the maximal runs of characters that are not
/// white space.
pub fn get_word_count(file: &String) -> (r: Result<usize, std::io::Error>)
    ensures
        r == Ok::<usize, std::io::Error>(word_count_of(file@) as usize),
{
    char_len_bound(file);
    let mut n: usize = 0;
    let mut after_space = true;
    for c in it: file.chars()
        invariant
            it.seq() == file@,
            it.index() <= file@.len() <= usize::MAX,
            n == word_count_of(file@.take(it.index() as int)),
            n <= it.index(),
            after_space == (it.index() == 0 || white_space(file@[it.index() - 1])),
    {
        let ghost i = it.index();
        proof {
            let t = file@.take(i + 1);
            assert(t.drop_last() == file@.take(i));
            assert(t[i] == file@[i]);
            assert(i > 0 ==> t[i - 1] == file@[i - 1]);
        }
        let space = is_white_space(c);
        if !space && after_space {
            n = n + 1;
        }
        after_space = space;
    }
    proof {
        assert(file@.take(file@.len() as int) == file@);
    }
    Ok(n)
}

/// Whether every character of `w` is white space.
pub open spec fn all_white_space(w: Seq<char>) -> bool {
    forall|i: int| 0 <= i < w.len() ==> white_space(#[trigger] w[i])
}

/// Whether a word of `a` runs straight into a word of `b` when the two are
/// joined, so that the join holds one word fewer than the parts.
pub open spec fn words_touch(a: Seq<char>, b: Seq<char>) -> bool {
    a.len() > 0 && b.len() > 0 && !white_space(a.last()) && !white_space(b[0])
}

/// The words of a joined text are those of its parts, less one where a word
/// spans the join.
pub proof fn lemma_word_count_concat(a: Seq<char>, b: Seq<char>)
    ensures
        word_count_of(a + b) + (if words_touch(a, b) { 1int } else { 0int })
            == word_count_of(a) + word_count_of(b),
    decreases b.len(),
{
    if b.len() == 0 {
        assert(a + b == a);
    } else {
        let ab = a + b;
        let bd = b.drop_last();
        assert(ab.drop_last() == a + bd);
        lemma_word_count_concat(a, bd);
        if b.len() == 1 {
            assert(bd.len() == 0);
            assert(a + bd == a);
            assert(word_count_of(bd) == 0);
        } else {
            assert(bd[0] == b[0]);
            assert(ab[ab.len() - 2] == b[b.len() - 2]);
        }
    }
}

/// Text made of white space alone holds no word.
pub proof fn lemma_white_space_has_no_words(w: Seq<char>)
    requires
        all_white_space(w),
    ensures
        word_count_of(w) == 0,
    decreases w.len(),
{
    if w.len() > 0 {
        assert(all_white_space(w.drop_last()));
        lemma_white_space_has_no_words(w.drop_last());
    }
}

/// Adding or removing white space in front of a text leaves its word count
/// unchanged.
pub proof fn law_word_count_leading_space(w: Seq<char>, s: Seq<char>)
    requires
        all_white_space(w),
    ensures
        word_count_of(w + s) == word_count_of(s),
{
    lemma_white_space_has_no_words(w);
    lemma_word_count_concat(w, s);
}

/// Adding or removing white space after a text leaves its word count
/// unchanged.
pub proof fn law_word_count_trailing_space(s: Seq<char>, w: Seq<char>)
    requires
        all_white_space(w),
    ensures
        word_count_of(s + w) == word_count_of(s),
{
    lemma_white_space_has_no_words(w);
    lemma_word_count_concat(s, w);
}

/// Replacing one non-empty run of white space inside a text by another
/// leaves its word count unchanged.
pub proof fn law_word_count_replace_space(a: Seq<char>, w1: Seq<char>, w2: Seq<char>, b: Seq<char>)
    requires
        w1.len() > 0,
        w2.len() > 0,
        all_white_space(w1),
        all_white_space(w2),
    ensures
        word_count_of(a + w1 + b) == word_count_of(a + w2 + b),
{
    lemma_white_space_has_no_words(w1);
    lemma_white_space_has_no_words(w2);
    lemma_word_count_concat(a, w1);
    lemma_word_count_concat(a + w1, b);
    lemma_word_count_concat(a, w2);
    lemma_word_count_concat(a + w2, b);
    assert((a + w1).last() == w1.last());
    assert((a + w2).last() == w2.last());
}

/// The characters that the character metric leaves out.
pub open spec fn is_line_break(c: char) -> bool {
    c == '\n' || c == '\r'
}

/// The character count is the number of characters less the line feeds and
/// carriage returns.
pub proof fn law_char_count(s: Seq<char>)
    ensures
        char_count_of(s) == s.len() - s.filter(|c: char| is_line_break(c)).len(),
    decreases s.len(),
{
    reveal(Seq::filter);
    if s.len() > 0 {
        law_char_count(s.drop_last());
    }
}

} // verus!
