//! Tokens, scanning errors, and their mathematical views.
use vstd::prelude::*;

verus! {

/// A number literal as written: its sign and the digits (with at most one
/// decimal point) that followed it.
#[derive(Clone, Debug, PartialEq)]
pub struct Number {
    pub negative: bool,
    pub digits: String,
}

/// One lexical unit of the language.
#[derive(Clone, Debug, PartialEq)]
pub enum Token {
    OpenParen,
    CloseParen,
    Equal,
    Lt,
    LtEq,
    Gt,
    GtEq,
    Plus,
    Minus,
    Times,
    Divide,
    Percent,
    Cond,
    Else,
    Let,
    List,
    Define,
    Lambda,
    BooleanLiteral(bool),
    Identifier(String),
    NumberLiteral(Number),
    StringLiteral(String),
}

/// What can go wrong while scanning one token.
#[derive(Clone, Copy, Debug, PartialEq, Eq, Structural)]
pub enum TokenError {
    UnexpectedChar(char),
    IncompleteString,
    InvalidEscape,
}

/// The mathematical value of a token: text payloads as character sequences.
pub enum TokenView {
    OpenParen,
    CloseParen,
    Equal,
    Lt,
    LtEq,
    Gt,
    GtEq,
    Plus,
    Minus,
    Times,
    Divide,
    Percent,
    Cond,
    Else,
    Let,
    List,
    Define,
    Lambda,
    BooleanLiteral(bool),
    Identifier(Seq<char>),
    NumberLiteral(bool, Seq<char>),
    StringLiteral(Seq<char>),
}

/// One item of the token stream: a token or an error.
pub type Item = Result<TokenView, TokenError>;

impl View for Token {
    type V = TokenView;

    open spec fn view(&self) -> TokenView {
        match self {
            Token::OpenParen => TokenView::OpenParen,
            Token::CloseParen => TokenView::CloseParen,
            Token::Equal => TokenView::Equal,
            Token::Lt => TokenView::Lt,
            Token::LtEq => TokenView::LtEq,
            Token::Gt => TokenView::Gt,
            Token::GtEq => TokenView::GtEq,
            Token::Plus => TokenView::Plus,
            Token::Minus => TokenView::Minus,
            Token::Times => TokenView::Times,
            Token::Divide => TokenView::Divide,
            Token::Percent => TokenView::Percent,
            Token::Cond => TokenView::Cond,
            Token::Else => TokenView::Else,
            Token::Let => TokenView::Let,
            Token::List => TokenView::List,
            Token::Define => TokenView::Define,
            Token::Lambda => TokenView::Lambda,
            Token::BooleanLiteral(b) => TokenView::BooleanLiteral(*b),
            Token::Identifier(w) => TokenView::Identifier(w@),
            Token::NumberLiteral(n) => TokenView::NumberLiteral(n.negative, n.digits@),
            Token::StringLiteral(t) => TokenView::StringLiteral(t@),
        }
    }
}

/// The view of one pulled item.
pub open spec fn item_view(r: Result<Token, TokenError>) -> Item {
    match r {
        Ok(t) => Ok(t@),
        Err(e) => Err(e),
    }
}

/// The view of a sequence of pulled items.
pub open spec fn items_view(v: Seq<Result<Token, TokenError>>) -> Seq<Item> {
    v.map_values(|x: Result<Token, TokenError>| item_view(x))
}

/// The view of what one pull returns.
pub open spec fn pulled_view(r: Option<Result<Token, TokenError>>) -> Option<Item> {
    match r {
        Some(x) => Some(item_view(x)),
        None => None,
    }
}

impl Number {
    /// The literal as it would be written: a leading `-` when negative,
    /// then the digits.
    pub fn text(&self) -> (r: String)
        ensures
            r@ == if self.negative {
                seq!['-'] + self.digits@
            } else {
                self.digits@
            },
    {
        if self.negative {
            let mut r = String::from_str("-");
            proof {
                reveal_strlit("-");
            }
            r.append(self.digits.as_str());
            r
        } else {
            self.digits.clone()
        }
    }
}

} // verus!
