//! The scanner: one token or error per pull.
use vstd::prelude::*;

use crate::chars::{
    is_alphabetic, is_bracket, is_numeric, is_whitespace, numeric, push_char, whitespace,
};
use crate::cursor::Cursor;
use crate::grammar::{
    digits_end, hash_end, hash_token, line_end, number_end, pull_at, skip_trivia, stream_from,
    string_from, token_stream, whitespace_end, word_end, word_token,
};
use crate::token::{item_view, items_view, pulled_view, Item, Number, Token, TokenError};

verus! {

/// Whether two texts hold the same characters.
fn text_is(w: &str, k: &str) -> (r: bool)
    ensures
        r == (w@ == k@),
{
    let n = w.unicode_len();
    if n != k.unicode_len() {
        return false;
    }
    let mut i: usize = 0;
    while i < n
        invariant
            n == w@.len(),
            n == k@.len(),
            i <= n,
            forall|j: int| 0 <= j < i ==> w@[j] == k@[j],
        decreases n - i,
    {
        if w.get_char(i) != k.get_char(i) {
            return false;
        }
        i = i + 1;
    }
    assert(w@ =~= k@);
    true
}

/// A comment opened at `i` ends where the rest of its line ends.
proof fn lemma_comment_skip(s: Seq<char>, i: int)
    requires
        0 <= i,
    ensures
        skip_trivia(s, i, true) == skip_trivia(s, line_end(s, i), false),
    decreases s.len() - i,
{
    if i < s.len() && s[i] != '\n' {
        lemma_comment_skip(s, i + 1);
    }
}

pub struct Tokenizer<'a> {
    input: Cursor<'a>,
}

impl<'a> Tokenizer<'a> {
    /// The text being scanned.
    pub closed spec fn text(&self) -> Seq<char> {
        self.input.text()
    }

    /// How many characters of the text have been consumed.
    pub closed spec fn pos(&self) -> int {
        self.input.pos()
    }

    pub closed spec fn wf(&self) -> bool {
        &&& self.input.wf()
        &&& 0 <= self.input.pos() <= self.input.text().len()
    }

    pub fn new(input: &'a str) -> (r: Self)
        ensures
            r.wf(),
            r.text() == input@,
            r.pos() == 0,
    {
        Tokenizer { input: Cursor::new(input) }
    }

    fn consume_whitespace(&mut self)
        requires
            old(self).wf(),
        ensures
            final(self).wf(),
            final(self).text() == old(self).text(),
            final(self).pos() == whitespace_end(old(self).text(), old(self).pos()),
            final(self).pos() < final(self).text().len() ==> !whitespace(
                final(self).text()[final(self).pos()],
            ),
    {
        let ghost s = self.text();
        let ghost start = self.pos();
        loop
            invariant
                self.wf(),
                self.text() == s,
                0 <= start <= self.pos(),
                whitespace_end(s, self.pos()) == whitespace_end(s, start),
            ensures
                self.pos() == whitespace_end(s, start),
                self.pos() < s.len() ==> !whitespace(s[self.pos()]),
            decreases s.len() - self.pos(),
        {
            match self.input.peek() {
                Some(c) => {
                    if is_whitespace(c) {
                        self.input.next();
                    } else {
                        break;
                    }
                },
                None => break,
            }
        }
    }

    fn consume_whitespace_and_comments_until_next_input(&mut self)
        requires
            old(self).wf(),
        ensures
            final(self).wf(),
            final(self).text() == old(self).text(),
            final(self).pos() == skip_trivia(old(self).text(), old(self).pos(), false),
            old(self).pos() <= final(self).pos(),
            final(self).pos() < final(self).text().len() ==> !whitespace(
                final(self).text()[final(self).pos()],
            ),
    {
        let ghost s = self.text();
        let ghost start = self.pos();
        loop
            invariant
                self.wf(),
                self.text() == s,
                0 <= start <= self.pos(),
                skip_trivia(s, self.pos(), false) == skip_trivia(s, start, false),
            ensures
                self.pos() == skip_trivia(s, start, false),
                self.pos() < s.len() ==> !whitespace(s[self.pos()]),
            decreases s.len() - self.pos(),
        {
            match self.input.peek() {
                Some(c) => {
                    if is_whitespace(c) {
                        self.input.next();
                    } else if c == ';' {
                        proof {
                            lemma_comment_skip(s, self.pos() + 1);
                        }
                        self.read_rest_of_line();
                    } else {
                        break;
                    }
                },
                None => break,
            }
        }
        self.consume_whitespace()
    }

    fn read_rest_of_line(&mut self)
        requires
            old(self).wf(),
        ensures
            final(self).wf(),
            final(self).text() == old(self).text(),
            final(self).pos() == line_end(old(self).text(), old(self).pos()),
            old(self).pos() < old(self).text().len() ==> old(self).pos() < final(self).pos(),
    {
        let ghost s = self.text();
        let ghost start = self.pos();
        loop
            invariant_except_break
                line_end(s, self.pos()) == line_end(s, start),
            invariant
                self.wf(),
                self.text() == s,
                0 <= start <= self.pos(),
            ensures
                self.pos() == line_end(s, start),
                start < s.len() ==> start < self.pos(),
            decreases s.len() - self.pos(),
        {
            match self.input.next() {
                Some(c) => {
                    if c == '\n' {
                        break;
                    }
                },
                None => break,
            }
        }
    }
    fn read_word(&mut self) -> (r: Token)
        requires
            old(self).wf(),
        ensures
            final(self).wf(),
            final(self).text() == old(self).text(),
            final(self).pos() == word_end(old(self).text(), old(self).pos()),
            old(self).pos() <= final(self).pos(),
            r@ == word_token(old(self).text().subrange(old(self).pos(), final(self).pos())),
            old(self).pos() < old(self).text().len() && !whitespace(
                old(self).text()[old(self).pos()],
            ) && !is_bracket(old(self).text()[old(self).pos()]) ==> old(self).pos() < final(self).pos(),
    {
        let ghost s = self.text();
        let ghost start = self.pos();
        let mut word = String::new();
        loop
            invariant
                self.wf(),
                self.text() == s,
                0 <= start <= self.pos(),
                word_end(s, self.pos()) == word_end(s, start),
                word@ == s.subrange(start, self.pos()),
            ensures
                self.pos() == word_end(s, start),
                start < s.len() && !whitespace(s[start]) && !is_bracket(s[start]) ==> start < self.pos(),
            decreases s.len() - self.pos(),
        {
            match self.input.peek() {
                Some(c) => {
                    if is_whitespace(c) {
                        break;
                    }
                    if c == '(' || c == '[' || c == '{' || c == ')' || c == ']' || c == '}' {
                        break;
                    }
                    self.input.next();
                    push_char(&mut word, c);
                    assert(word@ =~= s.subrange(start, self.pos()));
                },
                None => break,
            }
        }
        let w = word.as_str();
        if text_is(w, "cond") {
            Token::Cond
        } else if text_is(w, "else") {
            Token::Else
        } else if text_is(w, "let") {
            Token::Let
        } else if text_is(w, "list") {
            Token::List
        } else if text_is(w, "define") {
            Token::Define
        } else if text_is(w, "lambda") {
            Token::Lambda
        } else {
            Token::Identifier(word)
        }
    }

    fn read_hash_value(&mut self) -> (r: Token)
        requires
            old(self).wf(),
        ensures
            final(self).wf(),
            final(self).text() == old(self).text(),
            final(self).pos() == hash_end(old(self).text(), old(self).pos()),
            old(self).pos() <= final(self).pos(),
            r@ == hash_token(old(self).text().subrange(old(self).pos(), final(self).pos())),
    {
        let ghost s = self.text();
        let ghost start = self.pos();
        let mut word = String::new();
        loop
            invariant
                self.wf(),
                self.text() == s,
                0 <= start <= self.pos(),
                hash_end(s, self.pos()) == hash_end(s, start),
                word@ == s.subrange(start, self.pos()),
            ensures
                self.pos() == hash_end(s, start),
            decreases s.len() - self.pos(),
        {
            match self.input.peek() {
                Some(c) => {
                    if is_whitespace(c) {
                        break;
                    }
                    self.input.next();
                    push_char(&mut word, c);
                    assert(word@ =~= s.subrange(start, self.pos()));
                },
                None => break,
            }
        }
        let w = word.as_str();
        if text_is(w, "t") || text_is(w, "true") {
            Token::BooleanLiteral(true)
        } else if text_is(w, "f") || text_is(w, "false") {
            Token::BooleanLiteral(false)
        } else {
            Token::Identifier(word)
        }
    }

    /// Reads a run of numeric characters onto `num`.
    fn read_digits(&mut self, num: &mut String)
        requires
            old(self).wf(),
        ensures
            final(self).wf(),
            final(self).text() == old(self).text(),
            final(self).pos() == digits_end(old(self).text(), old(self).pos()),
            old(self).pos() <= final(self).pos(),
            final(num)@ == old(num)@ + old(self).text().subrange(old(self).pos(), final(self).pos()),
            old(self).pos() < old(self).text().len() && numeric(old(self).text()[old(self).pos()])
                ==> old(self).pos() < final(self).pos(),
    {
        let ghost s = self.text();
        let ghost start = self.pos();
        let ghost n0 = num@;
        loop
            invariant
                self.wf(),
                self.text() == s,
                0 <= start <= self.pos(),
                digits_end(s, self.pos()) == digits_end(s, start),
                num@ == n0 + s.subrange(start, self.pos()),
            ensures
                self.pos() == digits_end(s, start),
                start < s.len() && numeric(s[start]) ==> start < self.pos(),
            decreases s.len() - self.pos(),
        {
            match self.input.peek() {
                Some(c) => {
                    if !is_numeric(c) {
                        break;
                    }
                    self.input.next();
                    push_char(num, c);
                    assert(num@ =~= n0 + s.subrange(start, self.pos()));
                },
                None => break,
            }
        }
    }

    /// Reads a number literal: digits, then optionally `.` and more digits.
    fn read_number(&mut self) -> (r: String)
        requires
            old(self).wf(),
        ensures
            final(self).wf(),
            final(self).text() == old(self).text(),
            final(self).pos() == number_end(old(self).text(), old(self).pos()),
            old(self).pos() <= final(self).pos(),
            r@ == old(self).text().subrange(old(self).pos(), final(self).pos()),
            old(self).pos() < old(self).text().len() && numeric(old(self).text()[old(self).pos()])
                ==> old(self).pos() < final(self).pos(),
    {
        let ghost s = self.text();
        let ghost start = self.pos();
        let mut num = String::new();
        self.read_digits(&mut num);
        assert(num@ =~= s.subrange(start, self.pos()));
        if let Some('.') = self.input.peek() {
            self.input.next();
            push_char(&mut num, '.');
            assert(num@ =~= s.subrange(start, self.pos()));
            self.read_digits(&mut num);
            assert(num@ =~= s.subrange(start, self.pos()));
        }
        num
    }

    /// Reads a string literal; the cursor stands on its opening quote.
    fn read_string(&mut self) -> (r: Result<Token, TokenError>)
        requires
            old(self).wf(),
            old(self).pos() < old(self).text().len(),
            old(self).text()[old(self).pos()] == '"',
        ensures
            final(self).wf(),
            final(self).text() == old(self).text(),
            old(self).pos() < final(self).pos(),
            (item_view(r), final(self).pos()) == string_from(
                old(self).text(),
                old(self).pos() + 1,
                Seq::empty(),
            ),
    {
        let ghost s = self.text();
        let ghost start = self.pos();
        self.input.next();
        let mut buf = String::new();
        loop
            invariant
                self.wf(),
                self.text() == s,
                start < self.pos(),
                s == old(self).text(),
                start == old(self).pos(),
                string_from(s, self.pos(), buf@) == string_from(s, start + 1, Seq::empty()),
            decreases s.len() - self.pos(),
        {
            match self.input.next() {
                Some(c) => {
                    if c == '"' {
                        return Ok(Token::StringLiteral(buf));
                    } else if c == '\\' {
                        match self.input.peek() {
                            Some(e) => {
                                if e == '"' || e == '\\' {
                                    self.input.next();
                                    push_char(&mut buf, e);
                                } else {
                                    return Err(TokenError::InvalidEscape);
                                }
                            },
                            None => {
                                return Err(TokenError::InvalidEscape);
                            },
                        }
                    } else {
                        push_char(&mut buf, c);
                    }
                },
                None => {
                    return Err(TokenError::IncompleteString);
                },
            }
        }
    }

    /// Pulls the next token or error, or `None` once only trivia is left.
    pub fn next(&mut self) -> (r: Option<Result<Token, TokenError>>)
        requires
            old(self).wf(),
        ensures
            final(self).wf(),
            final(self).text() == old(self).text(),
            (pulled_view(r), final(self).pos()) == pull_at(old(self).text(), old(self).pos()),
            final(self).pos() <= final(self).text().len(),
            r is Some ==> old(self).pos() < final(self).pos(),
            r is None ==> final(self).pos() == final(self).text().len(),
    {
        self.consume_whitespace_and_comments_until_next_input();
        let c = match self.input.peek() {
            None => {
                return None;
            },
            Some(c) => c,
        };
        if c == '(' || c == '[' || c == '{' {
            self.input.next();
            Some(Ok(Token::OpenParen))
        } else if c == ')' || c == ']' || c == '}' {
            self.input.next();
            Some(Ok(Token::CloseParen))
        } else if c == '=' {
            self.input.next();
            if let Some(d) = self.input.peek() {
                if is_whitespace(d) {
                    return Some(Ok(Token::Equal));
                }
            }
            Some(Err(TokenError::IncompleteString))
        } else if c == '<' {
            self.input.next();
            if let Some('=') = self.input.peek() {
                self.input.next();
                Some(Ok(Token::LtEq))
            } else {
                Some(Ok(Token::Lt))
            }
        } else if c == '>' {
            self.input.next();
            if let Some('=') = self.input.peek() {
                self.input.next();
                Some(Ok(Token::GtEq))
            } else {
                Some(Ok(Token::Gt))
            }
        } else if c == '+' || c == '-' {
            self.input.next();
            let negative = c == '-';
            match self.input.peek() {
                Some(d) => {
                    if is_numeric(d) {
                        let digits = self.read_number();
                        return Some(Ok(Token::NumberLiteral(Number { negative, digits })));
                    }
                },
                None => {},
            }
            if negative {
                Some(Ok(Token::Minus))
            } else {
                Some(Ok(Token::Plus))
            }
        } else if c == '*' {
            self.input.next();
            Some(Ok(Token::Times))
        } else if c == '/' {
            self.input.next();
            Some(Ok(Token::Divide))
        } else if c == '%' {
            self.input.next();
            Some(Ok(Token::Percent))
        } else if c == '#' {
            self.input.next();
            Some(Ok(self.read_hash_value()))
        } else if c == '"' {
            Some(self.read_string())
        } else if (is_alphabetic(c) && !is_numeric(c)) || c == '_' {
            Some(Ok(self.read_word()))
        } else if is_numeric(c) {
            let digits = self.read_number();
            Some(Ok(Token::NumberLiteral(Number { negative: false, digits })))
        } else {
            self.input.next();
            Some(Err(TokenError::UnexpectedChar(c)))
        }
    }

    /// Pulls every remaining item, up to the end of the text.
    pub fn collect_items(&mut self) -> (r: Vec<Result<Token, TokenError>>)
        requires
            old(self).wf(),
        ensures
            final(self).wf(),
            final(self).text() == old(self).text(),
            final(self).pos() == final(self).text().len(),
            items_view(r@) == stream_from(old(self).text(), old(self).pos()),
    {
        let ghost s = self.text();
        let ghost start = self.pos();
        let mut out: Vec<Result<Token, TokenError>> = Vec::new();
        loop
            invariant
                self.wf(),
                self.text() == s,
                s == old(self).text(),
                start == old(self).pos(),
                items_view(out@) + stream_from(s, self.pos()) == stream_from(s, start),
            ensures
                self.pos() == s.len(),
                items_view(out@) == stream_from(s, start),
            decreases s.len() - self.pos(),
        {
            let ghost i = self.pos();
            match self.next() {
                Some(x) => {
                    let ghost before = out@;
                    out.push(x);
                    proof {
                        assert(items_view(out@) =~= items_view(before).push(item_view(x)));
                        assert(stream_from(s, i) == seq![item_view(x)] + stream_from(s, self.pos()));
                        assert(items_view(out@) + stream_from(s, self.pos()) =~= items_view(before)
                            + stream_from(s, i));
                    }
                },
                None => {
                    proof {
                        assert(stream_from(s, i) == Seq::<Item>::empty());
                        assert(items_view(out@) + stream_from(s, i) =~= items_view(out@));
                    }
                    break;
                },
            }
        }
        out
    }
}

/// Scans a whole text: every token and error, in order.
pub fn tokenize(input: &str) -> (r: Vec<Result<Token, TokenError>>)
    ensures
        items_view(r@) == token_stream(input@),
{
    let mut t = Tokenizer::new(input);
    t.collect_items()
}

} // verus!
