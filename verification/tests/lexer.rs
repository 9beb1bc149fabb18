use lambda_calculus::lexer::error::LexerError;
use lambda_calculus::lexer::{lexer, Op, Paren, Token};

#[test]
fn mod_test_simple() {
    assert_eq!(
        lexer(r"\x.x"),
        Ok(vec![
            Token::Lambda,
            Token::identifier("x"),
            Token::Dot,
            Token::identifier("x")
        ])
    );

    assert_eq!(
        lexer(r"(\x.x+1) 1"),
        Ok(vec![
            Token::Parentheses(Paren::Open),
            Token::Lambda,
            Token::identifier("x"),
            Token::Dot,
            Token::identifier("x"),
            Token::Operator(Op::Plus),
            Token::identifier("1"),
            Token::Parentheses(Paren::Close),
            Token::identifier("1"),
        ])
    );
}

#[test]
fn test_two_chars_operators() {
    assert_eq!(lexer(r">="), Ok(vec![Token::Operator(Op::SupEq)]));
    assert_eq!(
        lexer(r"x!=y"),
        Ok(vec![
            Token::identifier("x"),
            Token::Operator(Op::Neq),
            Token::identifier("y")
        ])
    );
}

#[test]
fn mod_test_fib() {
    assert_eq!(
        lexer(r"\f.\x. x>2 ? f(x-1) + f(x-2) : 1"),
        Ok(vec![
            Token::Lambda,
            Token::identifier("f"),
            Token::Dot,
            Token::Lambda,
            Token::identifier("x"),
            Token::Dot,
            Token::identifier("x"),
            Token::Operator(Op::Sup),
            Token::identifier("2"),
            Token::QuestionMark,
            Token::identifier("f"),
            Token::Parentheses(Paren::Open),
            Token::identifier("x"),
            Token::Operator(Op::Minus),
            Token::identifier("1"),
            Token::Parentheses(Paren::Close),
            Token::Operator(Op::Plus),
            Token::identifier("f"),
            Token::Parentheses(Paren::Open),
            Token::identifier("x"),
            Token::Operator(Op::Minus),
            Token::identifier("2"),
            Token::Parentheses(Paren::Close),
            Token::Colon,
            Token::identifier("1")
        ])
    );
}

#[test]
fn empty_text_is_refused() {
    assert_eq!(lexer(""), Err(LexerError::EmptyProgramError));
}

#[test]
fn illegal_characters_are_refused() {
    for c in ['#', '@', '$', '%', '^', '&', '_', ',', ';', '"', '\'', '[', ']', '{', '}', '|',
        '~', '`', '\t', '\n', '\r', '\0', '→', '€', '\u{a0}']
    {
        assert_eq!(
            lexer(&format!("x + {} y", c)),
            Err(LexerError::IllegalCharacterError(c)),
            "character {:?}",
            c
        );
    }
}

#[test]
fn the_first_illegal_character_is_named() {
    assert_eq!(lexer("a # b @ c"), Err(LexerError::IllegalCharacterError('#')));
    assert_eq!(lexer("@"), Err(LexerError::IllegalCharacterError('@')));
}

#[test]
fn every_character_of_the_alphabet_is_accepted() {
    let alphabet = r"abcxyzABCXYZ0189 \.()?:+-*/><=!";
    for c in alphabet.chars() {
        assert!(lexer(&c.to_string()).is_ok(), "character {:?}", c);
    }
    assert!(lexer(alphabet).is_ok());
}

#[test]
fn letters_beyond_ascii_are_part_of_identifiers() {
    assert_eq!(lexer("é"), Ok(vec![Token::identifier("é")]));
    assert_eq!(
        lexer("λx ٣"),
        Ok(vec![Token::identifier("λx"), Token::identifier("٣")])
    );
}

#[test]
fn spaces_yield_no_token() {
    assert_eq!(lexer(" "), Ok(vec![]));
    assert_eq!(lexer("   "), Ok(vec![]));
    assert_eq!(
        lexer(" a  b "),
        Ok(vec![Token::identifier("a"), Token::identifier("b")])
    );
}

#[test]
fn digits_are_identifiers() {
    assert_eq!(
        lexer("3.14"),
        Ok(vec![
            Token::identifier("3"),
            Token::Dot,
            Token::identifier("14")
        ])
    );
    assert_eq!(lexer("42"), Ok(vec![Token::identifier("42")]));
}

#[test]
fn equals_merges_with_the_token_before_it() {
    assert_eq!(lexer("<="), Ok(vec![Token::Operator(Op::InfEq)]));
    assert_eq!(lexer("!="), Ok(vec![Token::Operator(Op::Neq)]));
    assert_eq!(lexer("> ="), Ok(vec![Token::Operator(Op::SupEq)]));
    assert_eq!(lexer("="), Ok(vec![Token::Operator(Op::Eq)]));
    assert_eq!(
        lexer("=="),
        Ok(vec![Token::Operator(Op::Eq), Token::Operator(Op::Eq)])
    );
    assert_eq!(
        lexer(">=="),
        Ok(vec![Token::Operator(Op::SupEq), Token::Operator(Op::Eq)])
    );
    assert_eq!(
        lexer("!x="),
        Ok(vec![
            Token::Operator(Op::Not),
            Token::identifier("x"),
            Token::Operator(Op::Eq)
        ])
    );
    assert_eq!(
        lexer("+="),
        Ok(vec![Token::Operator(Op::Plus), Token::Operator(Op::Eq)])
    );
    assert_eq!(
        lexer("(="),
        Ok(vec![
            Token::Parentheses(Paren::Open),
            Token::Operator(Op::Eq)
        ])
    );
}

#[test]
fn every_separator_has_its_token() {
    assert_eq!(
        lexer(r"\.()?:+-*/><!"),
        Ok(vec![
            Token::Lambda,
            Token::Dot,
            Token::Parentheses(Paren::Open),
            Token::Parentheses(Paren::Close),
            Token::QuestionMark,
            Token::Colon,
            Token::Operator(Op::Plus),
            Token::Operator(Op::Minus),
            Token::Operator(Op::Asterisk),
            Token::Operator(Op::Slash),
            Token::Operator(Op::Sup),
            Token::Operator(Op::Inf),
            Token::Operator(Op::Not),
        ])
    );
}
