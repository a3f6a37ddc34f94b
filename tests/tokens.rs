use lexer::{tokenize, Number, Token, TokenError, Tokenizer};

fn number(item: Option<Result<Token, TokenError>>) -> f64 {
    match item {
        Some(Ok(Token::NumberLiteral(n))) => n.text().parse::<f64>().unwrap(),
        other => panic!("expected a number literal, got {:?}", other),
    }
}

fn ident(w: &str) -> Option<Result<Token, TokenError>> {
    Some(Ok(Token::Identifier(w.to_owned())))
}

#[test]
fn test_punctuation() {
    let mut s = Tokenizer::new("(,) = < <= > >= +-*/%");
    assert_eq!(s.next(), Some(Ok(Token::OpenParen)));
    assert_eq!(s.next(), Some(Err(TokenError::UnexpectedChar(','))));
    assert_eq!(s.next(), Some(Ok(Token::CloseParen)));
    assert_eq!(s.next(), Some(Ok(Token::Equal)));
    assert_eq!(s.next(), Some(Ok(Token::Lt)));
    assert_eq!(s.next(), Some(Ok(Token::LtEq)));
    assert_eq!(s.next(), Some(Ok(Token::Gt)));
    assert_eq!(s.next(), Some(Ok(Token::GtEq)));
    assert_eq!(s.next(), Some(Ok(Token::Plus)));
    assert_eq!(s.next(), Some(Ok(Token::Minus)));
    assert_eq!(s.next(), Some(Ok(Token::Times)));
    assert_eq!(s.next(), Some(Ok(Token::Divide)));
    assert_eq!(s.next(), Some(Ok(Token::Percent)));
    assert_eq!(s.next(), None);
}

#[test]
fn test_unexpected_char() {
    let mut s = Tokenizer::new("($)");
    assert_eq!(s.next(), Some(Ok(Token::OpenParen)));
    assert_eq!(s.next(), Some(Err(TokenError::UnexpectedChar('$'))));
}

#[test]
fn test_words() {
    let mut s = Tokenizer::new("foo FOO _123_ Nil else #f #t");
    assert_eq!(s.next(), Some(Ok(Token::Identifier("foo".to_owned()))));
    assert_eq!(s.next(), Some(Ok(Token::Identifier("FOO".to_owned()))));
    assert_eq!(s.next(), Some(Ok(Token::Identifier("_123_".to_owned()))));
    assert_eq!(s.next(), Some(Ok(Token::Identifier("Nil".to_owned()))));
    assert_eq!(s.next(), Some(Ok(Token::Else)));
    assert_eq!(s.next(), Some(Ok(Token::BooleanLiteral(false))));
    assert_eq!(s.next(), Some(Ok(Token::BooleanLiteral(true))));
    assert_eq!(s.next(), None);
}

#[test]
fn test_number() {
    let mut s = Tokenizer::new("0 -0 -1.2 +2.3 999 1.");
    assert_eq!(number(s.next()), 0.0);
    assert_eq!(number(s.next()), 0.0);
    assert_eq!(number(s.next()), -1.2);
    assert_eq!(number(s.next()), 2.3);
    assert_eq!(number(s.next()), 999.0);
    assert_eq!(number(s.next()), 1.0);
    assert_eq!(s.next(), None);
}

#[test]
fn test_string() {
    let mut s = Tokenizer::new(r#" "" "Foo bar" "\"\\" "#);
    assert_eq!(s.next(), Some(Ok(Token::StringLiteral("".to_owned()))));
    assert_eq!(s.next(), Some(Ok(Token::StringLiteral("Foo bar".to_owned()))));
    assert_eq!(s.next(), Some(Ok(Token::StringLiteral(r#""\"#.to_owned()))));
    assert_eq!(s.next(), None);
}

#[test]
fn test_comment() {
    let mut s = Tokenizer::new(";!/usr/bin/gate\n   ; foo\n");
    assert_eq!(s.next(), None);
}

#[test]
fn scheme_statement() {
    let s = tokenize("(apples (function a b) (+ a b))");
    let res: Result<Vec<Token>, TokenError> = s.into_iter().collect();

    let expected: Vec<Token> = vec![
        Token::OpenParen,
        Token::Identifier("apples".to_string()),
        Token::OpenParen,
        Token::Identifier("function".to_string()),
        Token::Identifier("a".to_string()),
        Token::Identifier("b".to_string()),
        Token::CloseParen,
        Token::OpenParen,
        Token::Plus,
        Token::Identifier("a".to_string()),
        Token::Identifier("b".to_string()),
        Token::CloseParen,
        Token::CloseParen,
    ];

    assert_eq!(res.unwrap(), expected);
}

#[test]
fn trivia_only_input_ends_at_once() {
    for text in ["", "   \t\n  ", "; just a comment", "  ; one\n; two\n\t", "\u{3000}\u{a0};x\n"] {
        let mut s = Tokenizer::new(text);
        assert_eq!(s.next(), None, "input {:?}", text);
        assert!(tokenize(text).is_empty());
    }
}

#[test]
fn end_of_input_repeats() {
    let mut s = Tokenizer::new("x");
    assert_eq!(s.next(), ident("x"));
    assert_eq!(s.next(), None);
    assert_eq!(s.next(), None);
    assert_eq!(s.next(), None);
}

#[test]
fn simple_sum() {
    let mut s = Tokenizer::new("(+ 1 2)");
    assert_eq!(s.next(), Some(Ok(Token::OpenParen)));
    assert_eq!(s.next(), Some(Ok(Token::Plus)));
    assert_eq!(number(s.next()), 1.0);
    assert_eq!(number(s.next()), 2.0);
    assert_eq!(s.next(), Some(Ok(Token::CloseParen)));
    assert_eq!(s.next(), None);
}

#[test]
fn sign_binds_only_to_adjacent_digit() {
    let mut s = Tokenizer::new("-1.2");
    assert_eq!(number(s.next()), -1.2);
    assert_eq!(s.next(), None);

    let mut s = Tokenizer::new("- 1.2");
    assert_eq!(s.next(), Some(Ok(Token::Minus)));
    assert_eq!(number(s.next()), 1.2);
    assert_eq!(s.next(), None);

    let mut s = Tokenizer::new("+x -");
    assert_eq!(s.next(), Some(Ok(Token::Plus)));
    assert_eq!(s.next(), ident("x"));
    assert_eq!(s.next(), Some(Ok(Token::Minus)));
    assert_eq!(s.next(), None);
}

#[test]
fn number_keeps_its_text() {
    let mut s = Tokenizer::new("-12.50 7. 3");
    let expect = |item: Option<Result<Token, TokenError>>, negative: bool, digits: &str| {
        assert_eq!(
            item,
            Some(Ok(Token::NumberLiteral(Number { negative, digits: digits.to_owned() })))
        );
    };
    expect(s.next(), true, "12.50");
    expect(s.next(), false, "7.");
    expect(s.next(), false, "3");
    assert_eq!(s.next(), None);

    let n = Number { negative: true, digits: "0.5".to_owned() };
    assert_eq!(n.text(), "-0.5");
    let n = Number { negative: false, digits: "42".to_owned() };
    assert_eq!(n.text(), "42");
}

#[test]
fn second_decimal_point_is_unexpected() {
    let mut s = Tokenizer::new("1.5.2");
    assert_eq!(number(s.next()), 1.5);
    assert_eq!(s.next(), Some(Err(TokenError::UnexpectedChar('.'))));
    assert_eq!(number(s.next()), 2.0);
    assert_eq!(s.next(), None);
}

#[test]
fn non_ascii_numeric_starts_a_number() {
    let mut s = Tokenizer::new("\u{663}\u{664}");
    assert_eq!(
        s.next(),
        Some(Ok(Token::NumberLiteral(Number { negative: false, digits: "\u{663}\u{664}".to_owned() })))
    );
    assert_eq!(s.next(), None);
}

#[test]
fn hash_values() {
    for (text, b) in [("#t", true), ("#true", true), ("#f", false), ("#false", false)] {
        let mut s = Tokenizer::new(text);
        assert_eq!(s.next(), Some(Ok(Token::BooleanLiteral(b))), "input {:?}", text);
        assert_eq!(s.next(), None);
    }
    let mut s = Tokenizer::new("#xyz");
    assert_eq!(s.next(), ident("xyz"));
    assert_eq!(s.next(), None);

    // only whitespace ends the text after `#`
    let mut s = Tokenizer::new("(#t)");
    assert_eq!(s.next(), Some(Ok(Token::OpenParen)));
    assert_eq!(s.next(), ident("t)"));
    assert_eq!(s.next(), None);

    let mut s = Tokenizer::new("# x");
    assert_eq!(s.next(), ident(""));
    assert_eq!(s.next(), ident("x"));
    assert_eq!(s.next(), None);
}

#[test]
fn string_escapes() {
    let mut s = Tokenizer::new("\"\"");
    assert_eq!(s.next(), Some(Ok(Token::StringLiteral(String::new()))));
    assert_eq!(s.next(), None);

    let mut s = Tokenizer::new("\"a\\\"b\\\\c\"");
    assert_eq!(s.next(), Some(Ok(Token::StringLiteral("a\"b\\c".to_owned()))));
    assert_eq!(s.next(), None);

    let mut s = Tokenizer::new("\"two\nlines; not a comment\"");
    assert_eq!(s.next(), Some(Ok(Token::StringLiteral("two\nlines; not a comment".to_owned()))));
    assert_eq!(s.next(), None);
}

#[test]
fn unterminated_string() {
    let mut s = Tokenizer::new("\"abc");
    assert_eq!(s.next(), Some(Err(TokenError::IncompleteString)));
    assert_eq!(s.next(), None);

    let mut s = Tokenizer::new("  \"");
    assert_eq!(s.next(), Some(Err(TokenError::IncompleteString)));
    assert_eq!(s.next(), None);
}

#[test]
fn invalid_escape_then_continue() {
    let mut s = Tokenizer::new("\"a\\n\" x");
    assert_eq!(s.next(), Some(Err(TokenError::InvalidEscape)));
    assert_eq!(s.next(), ident("n\""));
    assert_eq!(s.next(), ident("x"));
    assert_eq!(s.next(), None);

    let mut s = Tokenizer::new("\"\\");
    assert_eq!(s.next(), Some(Err(TokenError::InvalidEscape)));
    assert_eq!(s.next(), None);
}

#[test]
fn error_then_continue() {
    let mut s = Tokenizer::new("($)");
    assert_eq!(s.next(), Some(Ok(Token::OpenParen)));
    assert_eq!(s.next(), Some(Err(TokenError::UnexpectedChar('$'))));
    assert_eq!(s.next(), Some(Ok(Token::CloseParen)));
    assert_eq!(s.next(), None);
}

#[test]
fn equal_needs_following_whitespace() {
    let mut s = Tokenizer::new("=x =");
    assert_eq!(s.next(), Some(Err(TokenError::IncompleteString)));
    assert_eq!(s.next(), ident("x"));
    assert_eq!(s.next(), Some(Err(TokenError::IncompleteString)));
    assert_eq!(s.next(), None);

    let mut s = Tokenizer::new("=\t1");
    assert_eq!(s.next(), Some(Ok(Token::Equal)));
    assert_eq!(number(s.next()), 1.0);
}

#[test]
fn bracket_styles_collapse() {
    let mut s = Tokenizer::new("[{(x)}]");
    assert_eq!(s.next(), Some(Ok(Token::OpenParen)));
    assert_eq!(s.next(), Some(Ok(Token::OpenParen)));
    assert_eq!(s.next(), Some(Ok(Token::OpenParen)));
    assert_eq!(s.next(), ident("x"));
    assert_eq!(s.next(), Some(Ok(Token::CloseParen)));
    assert_eq!(s.next(), Some(Ok(Token::CloseParen)));
    assert_eq!(s.next(), Some(Ok(Token::CloseParen)));
    assert_eq!(s.next(), None);
}

#[test]
fn keywords_exact_spelling() {
    let items = tokenize("cond else let list define lambda Cond LET lists define!");
    assert_eq!(
        items,
        vec![
            Ok(Token::Cond),
            Ok(Token::Else),
            Ok(Token::Let),
            Ok(Token::List),
            Ok(Token::Define),
            Ok(Token::Lambda),
            Ok(Token::Identifier("Cond".to_owned())),
            Ok(Token::Identifier("LET".to_owned())),
            Ok(Token::Identifier("lists".to_owned())),
            Ok(Token::Identifier("define!".to_owned())),
        ]
    );
}

#[test]
fn comment_without_newline_and_after_tokens() {
    let items = tokenize("a ; b c\nd;e");
    assert_eq!(items, vec![Ok(Token::Identifier("a".to_owned())), Ok(Token::Identifier("d;e".to_owned()))]);
}

#[test]
fn same_text_same_stream() {
    let text = "(define (f x) (if (<= x 1) \"s\\\"\" #f)) ; c\n $ -2.5 =";
    let a = tokenize(text);
    let b = tokenize(text);
    assert_eq!(a, b);
    assert_eq!(a.len(), 18);
    assert_eq!(a[14], Ok(Token::Identifier("f))".to_owned())));

    let mut s1 = Tokenizer::new(text);
    let mut s2 = Tokenizer::new(text);
    loop {
        let x = s1.next();
        let y = s2.next();
        assert_eq!(x, y);
        if x.is_none() {
            break;
        }
    }
}
