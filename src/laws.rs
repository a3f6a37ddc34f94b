//! Properties of the token stream as a whole.
use vstd::prelude::*;

use crate::chars::{alphabetic, numeric, whitespace};
use crate::grammar::{
    digits_end, hash_end, number_end, pull_at, skip_trivia, stream_from, string_from, token_stream,
    word_end,
};
use crate::token::Item;
use crate::tokenizer::Tokenizer;

verus! {

/// Position `i` lies inside a comment: a `;` stands at or before it on the same line.
pub open spec fn in_comment(s: Seq<char>, i: int) -> bool {
    exists|k: int| 0 <= k <= i && s[k] == ';' && forall|m: int| k <= m < i ==> s[m] != '\n'
}

/// The text holds nothing but whitespace and comments.
pub open spec fn only_trivia(s: Seq<char>) -> bool {
    forall|i: int| 0 <= i < s.len() ==> whitespace(s[i]) || #[trigger] in_comment(s, i)
}

proof fn lemma_trivia_runs_to_end(s: Seq<char>, i: int, open_comment: bool)
    requires
        only_trivia(s),
        0 <= i <= s.len(),
        !open_comment ==> forall|k: int|
            0 <= k < i && s[k] == ';' ==> exists|m: int| k <= m < i && s[m] == '\n',
    ensures
        skip_trivia(s, i, open_comment) == s.len(),
    decreases s.len() - i,
{
    if i < s.len() {
        if open_comment {
            if s[i] == '\n' {
                assert forall|k: int| 0 <= k < i + 1 && s[k] == ';' implies exists|m: int|
                    k <= m < i + 1 && s[m] == '\n' by {
                    assert(k <= i && s[i] == '\n');
                }
            }
            lemma_trivia_runs_to_end(s, i + 1, s[i] != '\n');
        } else {
            if whitespace(s[i]) {
                assert forall|k: int| 0 <= k < i + 1 && s[k] == ';' implies exists|m: int|
                    k <= m < i + 1 && s[m] == '\n' by {
                    if k < i {
                        let m = choose|m: int| k <= m < i && s[m] == '\n';
                        assert(k <= m < i + 1 && s[m] == '\n');
                    }
                }
                lemma_trivia_runs_to_end(s, i + 1, false);
            } else {
                assert(in_comment(s, i));
                let k = choose|k: int|
                    0 <= k <= i && s[k] == ';' && forall|m: int| k <= m < i ==> s[m] != '\n';
                if k < i {
                    let m = choose|m: int| k <= m < i && s[m] == '\n';
                    assert(false);
                }
                lemma_trivia_runs_to_end(s, i + 1, true);
            }
        }
    }
}

proof fn lemma_skip_trivia_bounds(s: Seq<char>, i: int, open_comment: bool)
    requires
        0 <= i <= s.len(),
    ensures
        i <= skip_trivia(s, i, open_comment) <= s.len(),
        skip_trivia(s, i, open_comment) < s.len() ==> !whitespace(
            s[skip_trivia(s, i, open_comment)],
        ),
    decreases s.len() - i,
{
    if i < s.len() {
        lemma_skip_trivia_bounds(s, i + 1, if open_comment { s[i] != '\n' } else { s[i] == ';' });
    }
}

proof fn lemma_word_end_bounds(s: Seq<char>, i: int)
    requires
        0 <= i <= s.len(),
    ensures
        i <= word_end(s, i) <= s.len(),
    decreases s.len() - i,
{
    if i < s.len() {
        lemma_word_end_bounds(s, i + 1);
    }
}

proof fn lemma_hash_end_bounds(s: Seq<char>, i: int)
    requires
        0 <= i <= s.len(),
    ensures
        i <= hash_end(s, i) <= s.len(),
    decreases s.len() - i,
{
    if i < s.len() {
        lemma_hash_end_bounds(s, i + 1);
    }
}

proof fn lemma_digits_end_bounds(s: Seq<char>, i: int)
    requires
        0 <= i <= s.len(),
    ensures
        i <= digits_end(s, i) <= s.len(),
    decreases s.len() - i,
{
    if i < s.len() {
        lemma_digits_end_bounds(s, i + 1);
    }
}

proof fn lemma_number_end_bounds(s: Seq<char>, i: int)
    requires
        0 <= i < s.len(),
        numeric(s[i]),
    ensures
        i < number_end(s, i) <= s.len(),
{
    lemma_digits_end_bounds(s, i + 1);
    let j = digits_end(s, i);
    if j < s.len() && s[j] == '.' {
        lemma_digits_end_bounds(s, j + 1);
    }
}

proof fn lemma_string_bounds(s: Seq<char>, i: int, buf: Seq<char>)
    requires
        0 <= i <= s.len(),
    ensures
        i <= string_from(s, i, buf).1 <= s.len(),
    decreases s.len() - i,
{
    if i < s.len() && s[i] != '"' {
        if s[i] == '\\' {
            if i + 1 < s.len() && (s[i + 1] == '"' || s[i + 1] == '\\') {
                lemma_string_bounds(s, i + 2, buf.push(s[i + 1]));
            }
        } else {
            lemma_string_bounds(s, i + 1, buf.push(s[i]));
        }
    }
}

/// Scanning always moves forward within the text: a pull that yields a token
/// or an error consumes at least one character, and a pull that reports the
/// end has consumed the whole text. So the stream is the first pull's item
/// followed by the stream from where that pull stopped.
pub proof fn lemma_pull_moves_forward(s: Seq<char>, i: int)
    requires
        0 <= i <= s.len(),
    ensures
        i <= pull_at(s, i).1 <= s.len(),
        pull_at(s, i).0 is Some ==> i < pull_at(s, i).1,
        pull_at(s, i).0 is None ==> pull_at(s, i).1 == s.len(),
        stream_from(s, i) == match pull_at(s, i).0 {
            Some(x) => seq![x] + stream_from(s, pull_at(s, i).1),
            None => Seq::<Item>::empty(),
        },
{
    lemma_skip_trivia_bounds(s, i, false);
    let p = skip_trivia(s, i, false);
    if p < s.len() {
        let c = s[p];
        if c == '#' {
            lemma_hash_end_bounds(s, p + 1);
        } else if c == '"' {
            lemma_string_bounds(s, p + 1, Seq::empty());
        } else if c == '+' || c == '-' {
            if p + 1 < s.len() && numeric(s[p + 1]) {
                lemma_number_end_bounds(s, p + 1);
            }
        } else if (alphabetic(c) && !numeric(c)) || c == '_' {
            lemma_word_end_bounds(s, p + 1);
        } else if numeric(c) {
            lemma_number_end_bounds(s, p);
        }
    }
}

/// A text made only of whitespace and comments yields the end of input on
/// the first pull, and its token stream is empty.
pub proof fn lemma_trivia_only_is_empty(s: Seq<char>)
    requires
        only_trivia(s),
    ensures
        pull_at(s, 0).0 is None,
        token_stream(s) == Seq::<Item>::empty(),
{
    lemma_trivia_runs_to_end(s, 0, false);
}

/// Once the text is used up, every further pull reports the end again and
/// consumes nothing.
pub proof fn lemma_end_is_final(s: Seq<char>)
    ensures
        pull_at(s, s.len() as int) == (None::<Item>, s.len() as int),
{
}

/// Two scanners over the same text, standing at the same place, yield the
/// same items from there on, pull by pull and to the end.
pub proof fn lemma_scanners_agree(a: &Tokenizer, b: &Tokenizer)
    requires
        a.text() == b.text(),
        a.pos() == b.pos(),
    ensures
        pull_at(a.text(), a.pos()) == pull_at(b.text(), b.pos()),
        stream_from(a.text(), a.pos()) == stream_from(b.text(), b.pos()),
{
}

/// Scanning the same text twice gives the same stream.
pub proof fn lemma_same_text_same_stream(a: Seq<char>, b: Seq<char>)
    requires
        a == b,
    ensures
        token_stream(a) == token_stream(b),
{
}

} // verus!
