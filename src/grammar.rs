//! The scanning rules, stated over the text's characters and positions in it.
use vstd::prelude::*;

use crate::chars::{alphabetic, is_bracket, is_close_bracket, is_open_bracket, numeric, whitespace};
use crate::token::{Item, TokenError, TokenView};

verus! {

/// Where the trivia (whitespace and `;` comments) starting at `i` ends;
/// `in_comment` says whether a comment is still open at `i`. A comment runs
/// through the next newline, or to the end of the text.
pub open spec fn skip_trivia(s: Seq<char>, i: int, in_comment: bool) -> int
    decreases s.len() - i,
{
    if i >= s.len() {
        i
    } else if in_comment {
        skip_trivia(s, i + 1, s[i] != '\n')
    } else if whitespace(s[i]) {
        skip_trivia(s, i + 1, false)
    } else if s[i] == ';' {
        skip_trivia(s, i + 1, true)
    } else {
        i
    }
}

/// The end of the run of whitespace starting at `i`.
pub open spec fn whitespace_end(s: Seq<char>, i: int) -> int
    decreases s.len() - i,
{
    if i >= s.len() {
        i
    } else if whitespace(s[i]) {
        whitespace_end(s, i + 1)
    } else {
        i
    }
}

/// The position just past the first newline at or after `i`, or the end of the text.
pub open spec fn line_end(s: Seq<char>, i: int) -> int
    decreases s.len() - i,
{
    if i >= s.len() {
        i
    } else if s[i] == '\n' {
        i + 1
    } else {
        line_end(s, i + 1)
    }
}

/// The end of a bare word starting at `i`: the first whitespace or bracket.
pub open spec fn word_end(s: Seq<char>, i: int) -> int
    decreases s.len() - i,
{
    if i >= s.len() {
        i
    } else if whitespace(s[i]) || is_bracket(s[i]) {
        i
    } else {
        word_end(s, i + 1)
    }
}

/// The end of the text after a `#`: the first whitespace.
pub open spec fn hash_end(s: Seq<char>, i: int) -> int
    decreases s.len() - i,
{
    if i >= s.len() {
        i
    } else if whitespace(s[i]) {
        i
    } else {
        hash_end(s, i + 1)
    }
}

/// The end of the run of numeric characters starting at `i`.
pub open spec fn digits_end(s: Seq<char>, i: int) -> int
    decreases s.len() - i,
{
    if i >= s.len() {
        i
    } else if numeric(s[i]) {
        digits_end(s, i + 1)
    } else {
        i
    }
}

/// The end of a number literal starting at `i`: digits, then optionally a
/// `.` and more digits.
pub open spec fn number_end(s: Seq<char>, i: int) -> int {
    let j = digits_end(s, i);
    if j < s.len() && s[j] == '.' {
        digits_end(s, j + 1)
    } else {
        j
    }
}

/// A bare word: one of the reserved words, spelled exactly, or an identifier.
pub open spec fn word_token(w: Seq<char>) -> TokenView {
    if w == "cond"@ {
        TokenView::Cond
    } else if w == "else"@ {
        TokenView::Else
    } else if w == "let"@ {
        TokenView::Let
    } else if w == "list"@ {
        TokenView::List
    } else if w == "define"@ {
        TokenView::Define
    } else if w == "lambda"@ {
        TokenView::Lambda
    } else {
        TokenView::Identifier(w)
    }
}

/// The text after a `#`: a boolean, or else an identifier.
pub open spec fn hash_token(w: Seq<char>) -> TokenView {
    if w == "t"@ || w == "true"@ {
        TokenView::BooleanLiteral(true)
    } else if w == "f"@ || w == "false"@ {
        TokenView::BooleanLiteral(false)
    } else {
        TokenView::Identifier(w)
    }
}

/// The rest of a string literal from `i` (just past the opening quote or a
/// character already read), with `buf` read so far: the literal or the error,
/// and where scanning stopped.
pub open spec fn string_from(s: Seq<char>, i: int, buf: Seq<char>) -> (Item, int)
    decreases s.len() - i,
{
    if i >= s.len() {
        (Err(TokenError::IncompleteString), i)
    } else if s[i] == '"' {
        (Ok(TokenView::StringLiteral(buf)), i + 1)
    } else if s[i] == '\\' {
        if i + 1 < s.len() && (s[i + 1] == '"' || s[i + 1] == '\\') {
            string_from(s, i + 2, buf.push(s[i + 1]))
        } else {
            (Err(TokenError::InvalidEscape), i + 1)
        }
    } else {
        string_from(s, i + 1, buf.push(s[i]))
    }
}

/// A number literal starting at `i`, with the given sign.
pub open spec fn number_at(s: Seq<char>, i: int, negative: bool) -> (Item, int) {
    let e = number_end(s, i);
    (Ok(TokenView::NumberLiteral(negative, s.subrange(i, e))), e)
}

/// An operator that may be followed by `=`.
pub open spec fn relation_at(s: Seq<char>, p: int, alone: TokenView, with_eq: TokenView) -> (
    Item,
    int,
) {
    if p + 1 < s.len() && s[p + 1] == '=' {
        (Ok(with_eq), p + 2)
    } else {
        (Ok(alone), p + 1)
    }
}

/// A `+` or `-` at `p`: a signed number when a numeric character follows at
/// once, else the operator.
pub open spec fn sign_at(s: Seq<char>, p: int, negative: bool, op: TokenView) -> (Item, int) {
    if p + 1 < s.len() && numeric(s[p + 1]) {
        number_at(s, p + 1, negative)
    } else {
        (Ok(op), p + 1)
    }
}

/// The token or error that starts with the character at `p`, and where it ends.
pub open spec fn token_at(s: Seq<char>, p: int) -> (Item, int) {
    let c = s[p];
    if is_open_bracket(c) {
        (Ok(TokenView::OpenParen), p + 1)
    } else if is_close_bracket(c) {
        (Ok(TokenView::CloseParen), p + 1)
    } else if c == '=' {
        if p + 1 < s.len() && whitespace(s[p + 1]) {
            (Ok(TokenView::Equal), p + 1)
        } else {
            (Err(TokenError::IncompleteString), p + 1)
        }
    } else if c == '<' {
        relation_at(s, p, TokenView::Lt, TokenView::LtEq)
    } else if c == '>' {
        relation_at(s, p, TokenView::Gt, TokenView::GtEq)
    } else if c == '+' {
        sign_at(s, p, false, TokenView::Plus)
    } else if c == '-' {
        sign_at(s, p, true, TokenView::Minus)
    } else if c == '*' {
        (Ok(TokenView::Times), p + 1)
    } else if c == '/' {
        (Ok(TokenView::Divide), p + 1)
    } else if c == '%' {
        (Ok(TokenView::Percent), p + 1)
    } else if c == '#' {
        let e = hash_end(s, p + 1);
        (Ok(hash_token(s.subrange(p + 1, e))), e)
    } else if c == '"' {
        string_from(s, p + 1, Seq::empty())
    } else if (alphabetic(c) && !numeric(c)) || c == '_' {
        let e = word_end(s, p);
        (Ok(word_token(s.subrange(p, e))), e)
    } else if numeric(c) {
        number_at(s, p, false)
    } else {
        (Err(TokenError::UnexpectedChar(c)), p + 1)
    }
}

/// One pull at position `i`: trivia is skipped, then one token or error is
/// read, or the end of the text is reported. Also gives the position after it.
pub open spec fn pull_at(s: Seq<char>, i: int) -> (Option<Item>, int) {
    let p = skip_trivia(s, i, false);
    if p >= s.len() {
        (None, p)
    } else {
        let (r, e) = token_at(s, p);
        (Some(r), e)
    }
}

/// Every item that pulls from position `i` yield, up to the end of the text.
/// A pull that yields an item always stops further on within the text
/// (`lemma_pull_moves_forward`), so the guard below never cuts the stream short.
pub open spec fn stream_from(s: Seq<char>, i: int) -> Seq<Item>
    decreases s.len() - i,
{
    let (r, j) = pull_at(s, i);
    match r {
        None => Seq::empty(),
        Some(x) => if 0 <= i < j <= s.len() {
            seq![x] + stream_from(s, j)
        } else {
            seq![x]
        },
    }
}

/// The whole token stream of a text.
pub open spec fn token_stream(s: Seq<char>) -> Seq<Item> {
    stream_from(s, 0)
}

} // verus!
