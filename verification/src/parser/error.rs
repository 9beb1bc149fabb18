//! What the parser refuses.

use vstd::prelude::*;
use crate::lexer::{Op, Paren, Token, TokenView};
use crate::text::{quote, quoted};

verus! {

/// A slice of tokens that is no expression. The error names the first token
/// of the slice; it names none where the slice was empty.
#[derive(Debug, PartialEq)]
pub struct SyntaxError {
    illegal_token: Option<Token>,
}

impl View for SyntaxError {
    type V = Option<TokenView>;

    closed spec fn view(&self) -> Option<TokenView> {
        match self.illegal_token {
            Some(t) => Some(t@),
            None => None,
        }
    }
}

impl SyntaxError {
    /// The error that names `t`.
    pub fn new(t: Token) -> (r: Self)
        ensures
            r@ == Some(t@),
    {
        Self { illegal_token: Some(t) }
    }

    /// The error of an empty slice, where an expression was expected.
    pub fn end_of_input() -> (r: Self)
        ensures
            r@ == None::<TokenView>,
    {
        Self { illegal_token: None }
    }

    /// The token that the error names, if it names one.
    pub fn illegal_token(&self) -> (r: Option<&Token>)
        ensures
            match r {
                Some(t) => self@ == Some(t@),
                None => self@ == None::<TokenView>,
            },
    {
        self.illegal_token.as_ref()
    }
}

/// The name of an operator.
pub open spec fn op_name(op: Op) -> Seq<char> {
    match op {
        Op::Plus => "Plus"@,
        Op::Minus => "Minus"@,
        Op::Asterisk => "Asterisk"@,
        Op::Slash => "Slash"@,
        Op::Sup => "Sup"@,
        Op::SupEq => "SupEq"@,
        Op::Inf => "Inf"@,
        Op::InfEq => "InfEq"@,
        Op::Eq => "Eq"@,
        Op::Neq => "Neq"@,
        Op::Not => "Not"@,
    }
}

/// The text of a token, as a message shows it.
pub open spec fn token_text(token: TokenView) -> Seq<char> {
    match token {
        TokenView::Lambda => "Lambda"@,
        TokenView::Identifier(text) => "Identifier("@ + quoted(text) + ")"@,
        TokenView::Dot => "Dot"@,
        TokenView::Parentheses(Paren::Open) => "Parentheses(Open)"@,
        TokenView::Parentheses(Paren::Close) => "Parentheses(Close)"@,
        TokenView::Colon => "Colon"@,
        TokenView::QuestionMark => "QuestionMark"@,
        TokenView::Operator(op) => "Operator("@ + op_name(op) + ")"@,
    }
}

/// The message of an error.
pub open spec fn message_spec(error: Option<TokenView>) -> Seq<char> {
    match error {
        Some(token) => "Syntax error: the token "@ + token_text(token)
            + " isn't authorized here."@,
        None => "Syntax error: the text ends where an expression is expected."@,
    }
}

fn name_of(op: Op) -> (r: &'static str)
    ensures
        r@ == op_name(op),
{
    match op {
        Op::Plus => "Plus",
        Op::Minus => "Minus",
        Op::Asterisk => "Asterisk",
        Op::Slash => "Slash",
        Op::Sup => "Sup",
        Op::SupEq => "SupEq",
        Op::Inf => "Inf",
        Op::InfEq => "InfEq",
        Op::Eq => "Eq",
        Op::Neq => "Neq",
        Op::Not => "Not",
    }
}

fn text_of(token: &Token) -> (r: String)
    ensures
        r@ == token_text(token@),
{
    match token {
        Token::Lambda => "Lambda".to_owned(),
        Token::Identifier(text) => {
            let mut shown = "Identifier(".to_owned();
            shown.append(quote(text.as_str()).as_str());
            shown.append(")");
            shown
        },
        Token::Dot => "Dot".to_owned(),
        Token::Parentheses(Paren::Open) => "Parentheses(Open)".to_owned(),
        Token::Parentheses(Paren::Close) => "Parentheses(Close)".to_owned(),
        Token::Colon => "Colon".to_owned(),
        Token::QuestionMark => "QuestionMark".to_owned(),
        Token::Operator(op) => {
            let mut shown = "Operator(".to_owned();
            shown.append(name_of(*op));
            shown.append(")");
            shown
        },
    }
}

impl SyntaxError {
    /// The message of the error, for a reader.
    pub fn message(&self) -> (r: String)
        ensures
            r@ == message_spec(self@),
    {
        match &self.illegal_token {
            Some(token) => {
                let mut text = "Syntax error: the token ".to_owned();
                text.append(text_of(token).as_str());
                text.append(" isn't authorized here.");
                text
            },
            None => "Syntax error: the text ends where an expression is expected.".to_owned(),
        }
    }
}

} // verus!
