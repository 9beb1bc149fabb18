//! The tokenizer.

pub mod error;

use vstd::prelude::*;
use crate::lexer::error::LexerError;
use crate::text::{alphanumeric, chars_of, is_ascii, is_word_char};

verus! {

#[derive(PartialEq, Eq, Debug, Clone, Copy, Structural)]
pub enum Paren {
    Open,
    Close,
}

#[derive(PartialEq, Eq, Debug, Clone, Copy, Structural)]
pub enum Op {
    Plus,
    Minus,
    Asterisk,
    Slash,
    Sup,
    SupEq,
    Inf,
    InfEq,
    Eq,
    Neq,
    Not,
}

#[derive(PartialEq, Debug)]
pub enum Token {
    Lambda,
    Identifier(String),
    Dot,
    Parentheses(Paren),
    Colon,
    QuestionMark,
    Operator(Op),
}

/// The mathematical model of a token: an identifier is its sequence of
/// characters.
pub enum TokenView {
    Lambda,
    Identifier(Seq<char>),
    Dot,
    Parentheses(Paren),
    Colon,
    QuestionMark,
    Operator(Op),
}

impl View for Token {
    type V = TokenView;

    open spec fn view(&self) -> TokenView {
        match self {
            Token::Lambda => TokenView::Lambda,
            Token::Identifier(text) => TokenView::Identifier(text@),
            Token::Dot => TokenView::Dot,
            Token::Parentheses(paren) => TokenView::Parentheses(*paren),
            Token::Colon => TokenView::Colon,
            Token::QuestionMark => TokenView::QuestionMark,
            Token::Operator(op) => TokenView::Operator(*op),
        }
    }
}

impl Clone for Token {
    fn clone(&self) -> (r: Self)
        ensures
            r == *self,
    {
        match self {
            Token::Lambda => Token::Lambda,
            Token::Identifier(text) => Token::Identifier(text.clone()),
            Token::Dot => Token::Dot,
            Token::Parentheses(paren) => Token::Parentheses(*paren),
            Token::Colon => Token::Colon,
            Token::QuestionMark => Token::QuestionMark,
            Token::Operator(op) => Token::Operator(*op),
        }
    }
}

impl Token {
    pub fn identifier(s: &str) -> (r: Self)
        ensures
            r@ == TokenView::Identifier(s@),
    {
        Token::Identifier(s.to_owned())
    }
}

/// The models of a sequence of tokens.
pub open spec fn views(tokens: Seq<Token>) -> Seq<TokenView> {
    tokens.map_values(|t: Token| t@)
}

/// The token of a separator that stands for itself.
pub open spec fn separator(c: char) -> Option<TokenView> {
    if c == '\\' {
        Some(TokenView::Lambda)
    } else if c == '.' {
        Some(TokenView::Dot)
    } else if c == '(' {
        Some(TokenView::Parentheses(Paren::Open))
    } else if c == ')' {
        Some(TokenView::Parentheses(Paren::Close))
    } else if c == '?' {
        Some(TokenView::QuestionMark)
    } else if c == ':' {
        Some(TokenView::Colon)
    } else if c == '+' {
        Some(TokenView::Operator(Op::Plus))
    } else if c == '-' {
        Some(TokenView::Operator(Op::Minus))
    } else if c == '*' {
        Some(TokenView::Operator(Op::Asterisk))
    } else if c == '/' {
        Some(TokenView::Operator(Op::Slash))
    } else if c == '>' {
        Some(TokenView::Operator(Op::Sup))
    } else if c == '<' {
        Some(TokenView::Operator(Op::Inf))
    } else if c == '!' {
        Some(TokenView::Operator(Op::Not))
    } else {
        None
    }
}

/// A character that the tokenizer accepts: a character of an identifier, a
/// space, `=`, or a separator that stands for itself.
pub open spec fn is_legal(c: char) -> bool {
    is_word_char(c) || c == ' ' || c == '=' || separator(c) is Some
}

/// The operator that `=` makes of the operator before it.
pub open spec fn merged(op: Op) -> Option<Op> {
    match op {
        Op::Sup => Some(Op::SupEq),
        Op::Inf => Some(Op::InfEq),
        Op::Not => Some(Op::Neq),
        _ => None,
    }
}

/// The tokens after a `=`: it merges with a `>`, `<` or `!` that was the last
/// token, and is a token of its own otherwise.
pub open spec fn with_equals(tokens: Seq<TokenView>) -> Seq<TokenView> {
    if tokens.len() > 0 && tokens.last() is Operator && merged(tokens.last()->Operator_0) is Some {
        tokens.drop_last().push(TokenView::Operator(merged(tokens.last()->Operator_0)->0))
    } else {
        tokens.push(TokenView::Operator(Op::Eq))
    }
}

/// The tokens with the identifier whose characters are `word`, if there are any.
pub open spec fn flush(tokens: Seq<TokenView>, word: Seq<char>) -> Seq<TokenView> {
    if word.len() > 0 {
        tokens.push(TokenView::Identifier(word))
    } else {
        tokens
    }
}

/// The tokens of the first `n` characters of `s`, and the characters of the
/// identifier that has begun, where those characters are all legal.
pub open spec fn scan(s: Seq<char>, n: int) -> (Seq<TokenView>, Seq<char>)
    decreases n,
{
    if n <= 0 {
        (Seq::empty(), Seq::empty())
    } else {
        let (tokens, word) = scan(s, n - 1);
        let c = s[n - 1];
        if is_word_char(c) {
            (tokens, word.push(c))
        } else if c == '=' {
            (with_equals(flush(tokens, word)), Seq::empty())
        } else if separator(c) is Some {
            (flush(tokens, word).push(separator(c)->0), Seq::empty())
        } else {
            (flush(tokens, word), Seq::empty())
        }
    }
}

/// The place of the first character at or after `from` that is not legal; the
/// length of `s` where all are.
pub open spec fn first_illegal(s: Seq<char>, from: int) -> int
    decreases s.len() - from,
{
    if from >= s.len() {
        s.len() as int
    } else if !is_legal(s[from]) {
        from
    } else {
        first_illegal(s, from + 1)
    }
}

/// The tokens of a text, or why it has none.
pub open spec fn lex_spec(s: Seq<char>) -> Result<Seq<TokenView>, LexerError> {
    if s.len() == 0 {
        Err(LexerError::EmptyProgramError)
    } else if first_illegal(s, 0) < s.len() {
        Err(LexerError::IllegalCharacterError(s[first_illegal(s, 0)]))
    } else {
        let (tokens, word) = scan(s, s.len() as int);
        Ok(flush(tokens, word))
    }
}

/// The model of what the tokenizer returns.
pub open spec fn lexed(r: Result<Vec<Token>, LexerError>) -> Result<Seq<TokenView>, LexerError> {
    match r {
        Ok(tokens) => Ok(views(tokens@)),
        Err(error) => Err(error),
    }
}

/// The characters that may stand in a text: ASCII letters and digits, the
/// space, and `\ . ( ) ? : + - * / > < = !`.
pub open spec fn in_alphabet(c: char) -> bool {
    ||| 'a' <= c <= 'z'
    ||| 'A' <= c <= 'Z'
    ||| '0' <= c <= '9'
    ||| c == ' '
    ||| c == '\\'
    ||| c == '.'
    ||| c == '('
    ||| c == ')'
    ||| c == '?'
    ||| c == ':'
    ||| c == '+'
    ||| c == '-'
    ||| c == '*'
    ||| c == '/'
    ||| c == '>'
    ||| c == '<'
    ||| c == '='
    ||| c == '!'
}

/// `first_illegal` is the place of an illegal character, and there is none
/// before it.
pub proof fn lemma_first_illegal(s: Seq<char>, from: int)
    requires
        0 <= from,
    ensures
        first_illegal(s, from) >= from || first_illegal(s, from) == s.len(),
        first_illegal(s, from) < s.len() ==> !is_legal(s[first_illegal(s, from)]),
        forall|k: int| from <= k < first_illegal(s, from) && k < s.len() ==> is_legal(s[k]),
    decreases s.len() - from,
{
    if from < s.len() && is_legal(s[from]) {
        lemma_first_illegal(s, from + 1);
    }
}

/// A text that holds a character outside the alphabet is refused for an
/// illegal character, unless that character lies beyond ASCII and Unicode
/// counts it as alphanumeric: such a character is part of an identifier.
pub proof fn lemma_rejects_outside_alphabet(s: Seq<char>, i: int)
    requires
        0 <= i < s.len(),
        !in_alphabet(s[i]),
        is_ascii(s[i]) || !alphanumeric(s[i]),
    ensures
        lex_spec(s) is Err,
        lex_spec(s)->Err_0 is IllegalCharacterError,
{
    lemma_first_illegal(s, 0);
}

/// A text that is not empty and holds characters of the alphabet only has
/// tokens.
pub proof fn lemma_accepts_alphabet(s: Seq<char>)
    requires
        s.len() > 0,
        forall|i: int| 0 <= i < s.len() ==> in_alphabet(#[trigger] s[i]),
    ensures
        lex_spec(s) is Ok,
{
    lemma_first_illegal(s, 0);
    if first_illegal(s, 0) < s.len() {
        assert(in_alphabet(s[first_illegal(s, 0)]));
    }
}

/// A run of characters of identifiers, with at least one character.
pub open spec fn is_word(text: Seq<char>) -> bool {
    text.len() > 0 && forall|i: int| 0 <= i < text.len() ==> is_word_char(#[trigger] text[i])
}

/// Every identifier among the tokens is a word.
pub open spec fn identifiers_are_words(tokens: Seq<TokenView>) -> bool {
    forall|k: int|
        0 <= k < tokens.len() && (#[trigger] tokens[k]) is Identifier ==> is_word(
            tokens[k]->Identifier_0,
        )
}

proof fn lemma_scan_words(s: Seq<char>, n: int)
    requires
        0 <= n <= s.len(),
    ensures
        identifiers_are_words(scan(s, n).0),
        identifiers_are_words(flush(scan(s, n).0, scan(s, n).1)),
        forall|i: int| 0 <= i < scan(s, n).1.len() ==> is_word_char(#[trigger] scan(s, n).1[i]),
    decreases n,
{
    if n > 0 {
        lemma_scan_words(s, n - 1);
        let (tokens, word) = scan(s, n - 1);
        let flushed = flush(tokens, word);
        assert(identifiers_are_words(with_equals(flushed)));
    }
}

/// The identifiers that the tokenizer yields are runs of alphanumeric
/// characters, and none is empty.
pub proof fn lemma_identifiers_are_words(s: Seq<char>)
    requires
        lex_spec(s) is Ok,
    ensures
        identifiers_are_words(lex_spec(s)->Ok_0),
{
    lemma_scan_words(s, s.len() as int);
}

/// The tokens after a `=`.
fn push_equals(res: &mut Vec<Token>)
    ensures
        views(final(res)@) == with_equals(views(old(res)@)),
{
    let ghost before = views(res@);
    match res.pop() {
        Some(Token::Operator(Op::Sup)) => {
            res.push(Token::Operator(Op::SupEq));
        },
        Some(Token::Operator(Op::Inf)) => {
            res.push(Token::Operator(Op::InfEq));
        },
        Some(Token::Operator(Op::Not)) => {
            res.push(Token::Operator(Op::Neq));
        },
        Some(other) => {
            res.push(other);
            res.push(Token::Operator(Op::Eq));
        },
        None => {
            res.push(Token::Operator(Op::Eq));
        },
    }
    assert(views(res@) =~= with_equals(before));
}

/// The token of a separator that stands for itself.
fn separator_token(c: char) -> (r: Option<Token>)
    ensures
        match r {
            Some(token) => separator(c) == Some(token@),
            None => separator(c) is None,
        },
{
    match c {
        '\\' => Some(Token::Lambda),
        '.' => Some(Token::Dot),
        '(' => Some(Token::Parentheses(Paren::Open)),
        ')' => Some(Token::Parentheses(Paren::Close)),
        '?' => Some(Token::QuestionMark),
        ':' => Some(Token::Colon),
        '+' => Some(Token::Operator(Op::Plus)),
        '-' => Some(Token::Operator(Op::Minus)),
        '*' => Some(Token::Operator(Op::Asterisk)),
        '/' => Some(Token::Operator(Op::Slash)),
        '>' => Some(Token::Operator(Op::Sup)),
        '<' => Some(Token::Operator(Op::Inf)),
        '!' => Some(Token::Operator(Op::Not)),
        _ => None,
    }
}

/// Adds the identifier that runs from `start` to `end`, if it has a character.
fn push_word(res: &mut Vec<Token>, prog: &str, start: usize, end: usize)
    requires
        start <= end <= prog@.len(),
    ensures
        views(final(res)@) == flush(views(old(res)@), prog@.subrange(start as int, end as int)),
{
    let ghost before = views(res@);
    if start < end {
        res.push(Token::identifier(prog.substring_char(start, end)));
    }
    assert(views(res@) =~= flush(before, prog@.subrange(start as int, end as int)));
}

/// Splits a text into its tokens.
///
/// A run of alphanumeric characters is an identifier; every other character
/// ends the run. A space yields no token, `=` merges with a `>`, `<` or `!`
/// that is the token before it, and each other separator is a token of its
/// own. An empty text is refused, and so is a text with a character that is
/// neither alphanumeric nor a separator: the error holds the first of them.
pub fn lexer(prog: &str) -> (r: Result<Vec<Token>, LexerError>)
    ensures
        lexed(r) == lex_spec(prog@),
{
    if prog.is_empty() {
        return Err(LexerError::EmptyProgramError);
    }
    let chars = chars_of(prog);
    let n = chars.len();
    let ghost s = prog@;
    let mut res: Vec<Token> = Vec::new();
    let mut start: usize = 0;
    let mut i: usize = 0;
    while i < n
        invariant
            s == prog@,
            chars@ == s,
            n == s.len(),
            0 <= start <= i <= n,
            first_illegal(s, 0) == first_illegal(s, i as int),
            views(res@) == scan(s, i as int).0,
            s.subrange(start as int, i as int) == scan(s, i as int).1,
        decreases n - i,
    {
        let c = chars[i];
        if c.is_alphanumeric() {
            assert(s.subrange(start as int, i + 1) =~= s.subrange(start as int, i as int).push(c));
        } else {
            push_word(&mut res, prog, start, i);
            if c == '=' {
                push_equals(&mut res);
            } else if c != ' ' {
                match separator_token(c) {
                    Some(token) => {
                        res.push(token);
                        assert(views(res@) =~= scan(s, i + 1).0);
                    },
                    None => {
                        return Err(LexerError::IllegalCharacterError(c));
                    },
                }
            }
            start = i + 1;
            assert(s.subrange(start as int, i + 1) =~= Seq::<char>::empty());
        }
        i = i + 1;
    }
    push_word(&mut res, prog, start, n);
    Ok(res)
}

} // verus!
