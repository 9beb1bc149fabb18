//! The parser.

pub mod error;
pub mod grammar;
pub mod laws;

use vstd::prelude::*;
use vstd::slice::slice_subrange;
use crate::ast::{ArithmeticOp, ComparisonOp, Expr, Term};
use crate::lexer::{views, Op, Paren, Token, TokenView};
use crate::numeral::{is_integer, lemma_integer_is_float, Numeral};
use crate::parser::error::SyntaxError;
use crate::parser::grammar::{
    binary, boundary_before, colon_before, continues, depth, lemma_boundary_before,
    lemma_colon_before, lemma_operator_in, lemma_question_from, lemma_strip, nesting,
    op_sup_spec, operator_in, parse_spec, question_from, refuse, strip_spec, terminal, word,
    wrapped,
};

verus! {

/// The model of what the parser returns.
pub open spec fn outcome(r: Result<Expr, SyntaxError>) -> Result<Term, Option<TokenView>> {
    match r {
        Ok(expr) => Ok(expr@),
        Err(error) => Err(error@),
    }
}

/// Whether `op1` binds tighter than `op2`: `*` and `/` against `+` and `-`.
pub fn op_sup(op1: &Op, op2: &Op) -> (r: bool)
    ensures
        r == op_sup_spec(*op1, *op2),
{
    (*op1 == Op::Asterisk || *op1 == Op::Slash) && (*op2 == Op::Plus || *op2 == Op::Minus)
}

fn nesting_of(token: &Token) -> (r: i128)
    ensures
        r == nesting(token@),
{
    match token {
        Token::Parentheses(Paren::Open) => 1,
        Token::Parentheses(Paren::Close) => -1,
        _ => 0,
    }
}

fn is_identifier(token: &Token) -> (r: bool)
    ensures
        r == (token@ is Identifier),
{
    match token {
        Token::Identifier(_) => true,
        _ => false,
    }
}

fn is_dot(token: &Token) -> (r: bool)
    ensures
        r == (token@ == TokenView::Dot),
{
    match token {
        Token::Dot => true,
        _ => false,
    }
}

fn can_continue(token: &Token) -> (r: bool)
    ensures
        r == continues(token@),
{
    match token {
        Token::Operator(_) | Token::QuestionMark | Token::Colon | Token::Dot => true,
        _ => false,
    }
}

proof fn lemma_views_subrange(tokens: Seq<Token>, from: int, to: int)
    requires
        0 <= from <= to <= tokens.len(),
    ensures
        views(tokens.subrange(from, to)) == views(tokens).subrange(from, to),
        views(tokens).skip(from) == views(tokens).subrange(from, tokens.len() as int),
{
    assert(views(tokens.subrange(from, to)) =~= views(tokens).subrange(from, to));
    assert(views(tokens).skip(from) =~= views(tokens).subrange(from, tokens.len() as int));
}

/// Whether one pair of parentheses stands round the whole slice.
fn is_wrapped(tokens: &[Token]) -> (r: bool)
    ensures
        r == wrapped(views(tokens@)),
{
    let n = tokens.len();
    let ghost t = views(tokens@);
    if n < 2 {
        return false;
    }
    if nesting_of(&tokens[0]) != 1 || nesting_of(&tokens[n - 1]) != -1 {
        return false;
    }
    let mut level: i128 = 0;
    let mut k: usize = 0;
    while k < n - 1
        invariant
            n == tokens.len(),
            n >= 2,
            t == views(tokens@),
            0 <= k <= n - 1,
            level == depth(t, k as int),
            -k <= level <= k,
            forall|m: int| 1 <= m <= k ==> #[trigger] depth(t, m) != 0,
        decreases n - k,
    {
        level = level + nesting_of(&tokens[k]);
        k = k + 1;
        if level == 0 {
            assert(depth(t, k as int) == 0);
            return false;
        }
    }
    true
}

/// Takes away the pairs of parentheses that stand round the whole slice.
pub fn remove_extra_parentheses(tokens: &[Token]) -> (r: &[Token])
    ensures
        views(r@) == strip_spec(views(tokens@)),
        r@.len() <= tokens@.len(),
    decreases tokens@.len(),
{
    if is_wrapped(tokens) {
        let inner = slice_subrange(tokens, 1, tokens.len() - 1);
        proof {
            lemma_views_subrange(tokens@, 1, tokens@.len() - 1);
        }
        remove_extra_parentheses(inner)
    } else {
        tokens
    }
}

/// The first `?` at depth zero; the length of the slice where there is none.
fn find_question(tokens: &[Token]) -> (i: usize)
    ensures
        i == question_from(views(tokens@), 0),
        i <= tokens.len(),
{
    let n = tokens.len();
    let ghost t = views(tokens@);
    let mut level: i128 = 0;
    let mut i: usize = 0;
    while i < n
        invariant
            n == tokens.len(),
            t == views(tokens@),
            0 <= i <= n,
            level == depth(t, i as int),
            -i <= level <= i,
            question_from(t, 0) == question_from(t, i as int),
        decreases n - i,
    {
        if level == 0 {
            match &tokens[i] {
                Token::QuestionMark => {
                    return i;
                },
                _ => {},
            }
        }
        level = level + nesting_of(&tokens[i]);
        i = i + 1;
    }
    n
}

/// The last `:` behind `low` with as many `(` as `)` behind it; `low` where
/// there is none.
fn find_colon(tokens: &[Token], low: usize) -> (j: usize)
    requires
        low < tokens.len(),
    ensures
        j == colon_before(views(tokens@), low as int, tokens.len() as int),
        low <= j < tokens.len(),
{
    let n = tokens.len();
    let ghost t = views(tokens@);
    let mut behind: i128 = 0;
    let mut j: usize = n;
    while j > low + 1
        invariant
            n == tokens.len(),
            t == views(tokens@),
            low < j <= n,
            behind == depth(t, n as int) - depth(t, j as int),
            j - n <= behind <= n - j,
            colon_before(t, low as int, n as int) == colon_before(t, low as int, j as int),
        decreases j,
    {
        j = j - 1;
        behind = behind + nesting_of(&tokens[j]);
        if behind == 0 {
            match &tokens[j] {
                Token::Colon => {
                    return j;
                },
                _ => {},
            }
        }
    }
    low
}

/// The last place where a function ends and its argument begins; zero where
/// there is none.
fn find_boundary(tokens: &[Token]) -> (i: usize)
    ensures
        i == boundary_before(views(tokens@), tokens.len() as int),
        i == 0 || 1 <= i < tokens.len(),
{
    let n = tokens.len();
    let ghost t = views(tokens@);
    let mut behind: i128 = 0;
    let mut i: usize = n;
    while i > 1
        invariant
            n == tokens.len(),
            t == views(tokens@),
            i <= n,
            n >= 1 ==> i >= 1,
            behind == depth(t, n as int) - depth(t, i as int),
            i - n <= behind <= n - i,
            boundary_before(t, n as int) == boundary_before(t, i as int),
        decreases i,
    {
        i = i - 1;
        behind = behind + nesting_of(&tokens[i]);
        if behind == 0 && (is_identifier(&tokens[i - 1]) || nesting_of(&tokens[i - 1]) == -1)
            && !can_continue(&tokens[i]) {
            return i;
        }
    }
    0
}

/// The operator at which the slice splits, as an index; zero where there is
/// none.
fn find_operator(tokens: &[Token]) -> (chosen: usize)
    ensures
        chosen == operator_in(views(tokens@), tokens.len() as int),
        chosen == 0 || 1 <= chosen < tokens.len(),
{
    let n = tokens.len();
    let ghost t = views(tokens@);
    let mut level: i128 = 0;
    let mut chosen: usize = 0;
    let mut i: usize = 0;
    while i < n
        invariant
            n == tokens.len(),
            t == views(tokens@),
            0 <= i <= n,
            level == depth(t, i as int),
            -i <= level <= i,
            chosen == operator_in(t, i as int),
            chosen == 0 || 1 <= chosen < i,
            chosen != 0 ==> t[chosen as int] is Operator,
        decreases n - i,
    {
        match &tokens[i] {
            Token::Operator(op) => {
                if level == 0 {
                    if chosen == 0 {
                        chosen = i;
                    } else {
                        match &tokens[chosen] {
                            Token::Operator(op2) => {
                                if !op_sup(op, op2) {
                                    chosen = i;
                                }
                            },
                            _ => {},
                        }
                    }
                }
            },
            _ => {},
        }
        level = level + nesting_of(&tokens[i]);
        i = i + 1;
    }
    chosen
}

/// The error that names the first token of the slice.
fn refuse_slice(tokens: &[Token]) -> (r: SyntaxError)
    ensures
        Err::<Term, Option<TokenView>>(r@) == refuse(views(tokens@)),
{
    if tokens.len() == 0 {
        SyntaxError::end_of_input()
    } else {
        SyntaxError::new(tokens[0].clone())
    }
}

/// The expression of an identifier that stands alone.
fn parse_word(text: &String) -> (r: Option<Expr>)
    ensures
        match r {
            Some(expr) => word(text@) == Some(expr@),
            None => word(text@) is None,
        },
{
    proof {
        reveal_strlit("true");
        reveal_strlit("false");
        assert("true"@ =~= seq!['t', 'r', 'u', 'e']);
        assert("false"@ =~= seq!['f', 'a', 'l', 's', 'e']);
    }
    let s = text.as_str();
    if *s == *"true" {
        Some(Expr::boolean_literal(true))
    } else if *s == *"false" {
        Some(Expr::boolean_literal(false))
    } else if !s.is_empty() && s.get_char(0).is_alphabetic() {
        Some(Expr::var(s))
    } else {
        match Numeral::new(s) {
            Some(numeral) => Some(Expr::numeric_literal(numeral)),
            None => None,
        }
    }
}

/// A slice that no other production fits: a boolean, a variable or a number.
fn parse_terminal(tokens: &[Token]) -> (r: Result<Expr, SyntaxError>)
    ensures
        outcome(r) == terminal(views(tokens@)),
{
    let n = tokens.len();
    if n == 3 && is_dot(&tokens[1]) {
        match (&tokens[0], &tokens[2]) {
            (Token::Identifier(whole), Token::Identifier(fraction)) => {
                proof {
                    reveal_strlit(".");
                    assert("."@ =~= seq!['.']);
                }
                let text = whole.clone().concat(".").concat(fraction.as_str());
                return match Numeral::new(text.as_str()) {
                    Some(numeral) => Ok(Expr::numeric_literal(numeral)),
                    None => Err(refuse_slice(tokens)),
                };
            },
            _ => {},
        }
    } else if n == 2 && is_dot(&tokens[1]) {
        match &tokens[0] {
            Token::Identifier(whole) => {
                if is_integer(whole.as_str()) {
                    proof {
                        lemma_integer_is_float(whole@);
                    }
                    return match Numeral::new(whole.as_str()) {
                        Some(numeral) => Ok(Expr::numeric_literal(numeral)),
                        None => Err(refuse_slice(tokens)),
                    };
                } else {
                    return Err(refuse_slice(tokens));
                }
            },
            _ => {},
        }
    } else if n == 1 {
        match &tokens[0] {
            Token::Identifier(text) => {
                return match parse_word(text) {
                    Some(expr) => Ok(expr),
                    None => Err(refuse_slice(tokens)),
                };
            },
            _ => {},
        }
    }
    Err(refuse_slice(tokens))
}

/// The node that a binary operator builds.
fn build_binary(op: Op, lhs: Expr, rhs: Expr) -> (r: Option<Expr>)
    ensures
        match r {
            Some(expr) => binary(op, lhs@, rhs@) == Some(expr@),
            None => binary(op, lhs@, rhs@) is None,
        },
{
    match op {
        Op::Plus => Some(Expr::arithmetic(ArithmeticOp::Add, lhs, rhs)),
        Op::Minus => Some(Expr::arithmetic(ArithmeticOp::Sub, lhs, rhs)),
        Op::Asterisk => Some(Expr::arithmetic(ArithmeticOp::Mul, lhs, rhs)),
        Op::Slash => Some(Expr::arithmetic(ArithmeticOp::Div, lhs, rhs)),
        Op::Sup => Some(Expr::comparison(ComparisonOp::Gt, lhs, rhs)),
        Op::SupEq => Some(Expr::comparison(ComparisonOp::Gte, lhs, rhs)),
        Op::Inf => Some(Expr::comparison(ComparisonOp::Lt, lhs, rhs)),
        Op::InfEq => Some(Expr::comparison(ComparisonOp::Lte, lhs, rhs)),
        Op::Eq => Some(Expr::comparison(ComparisonOp::Eq, lhs, rhs)),
        Op::Neq => Some(Expr::comparison(ComparisonOp::Neq, lhs, rhs)),
        Op::Not => None,
    }
}

/// Parses a slice of tokens into the expression that it denotes.
///
/// The slice is matched as a whole against the productions, in this order:
/// parentheses round the slice, abstraction, conditional, application, binary
/// operation, terminal. What fits first decides. A slice that fits none is
/// refused with its first token; an empty slice, and with it an expression
/// that lacks an operand, is refused with no token.
pub fn parse(tokens: &[Token]) -> (r: Result<Expr, SyntaxError>)
    ensures
        outcome(r) == parse_spec(views(tokens@)),
    decreases tokens@.len(),
{
    let ghost given = views(tokens@);
    let tokens = remove_extra_parentheses(tokens);
    let n = tokens.len();
    let ghost t = views(tokens@);
    proof {
        lemma_strip(given);
        lemma_question_from(t, 0);
        lemma_colon_before(t, question_from(t, 0), t.len() as int);
        lemma_boundary_before(t, t.len() as int);
        lemma_operator_in(t, t.len() as int);
    }

    if n >= 3 && is_dot(&tokens[2]) {
        match (&tokens[0], &tokens[1]) {
            (Token::Lambda, Token::Identifier(name)) => {
                proof {
                    lemma_views_subrange(tokens@, 3, n as int);
                }
                return match parse(slice_subrange(tokens, 3, n)) {
                    Ok(body) => Ok(Expr::abs(name.as_str(), body)),
                    Err(error) => Err(error),
                };
            },
            _ => {},
        }
    }
    let question = find_question(tokens);
    if question < n {
        let colon = find_colon(tokens, question);
        if colon > question {
            proof {
                lemma_views_subrange(tokens@, 0, question as int);
                lemma_views_subrange(tokens@, question + 1, colon as int);
                lemma_views_subrange(tokens@, colon + 1, n as int);
            }
            let condition = match parse(slice_subrange(tokens, 0, question)) {
                Ok(expr) => expr,
                Err(error) => {
                    return Err(error);
                },
            };
            let true_branch = match parse(slice_subrange(tokens, question + 1, colon)) {
                Ok(expr) => expr,
                Err(error) => {
                    return Err(error);
                },
            };
            let false_branch = match parse(slice_subrange(tokens, colon + 1, n)) {
                Ok(expr) => expr,
                Err(error) => {
                    return Err(error);
                },
            };
            return Ok(Expr::conditional(condition, true_branch, false_branch));
        }
    }
    let boundary = find_boundary(tokens);
    if boundary > 0 {
        proof {
            lemma_views_subrange(tokens@, 0, boundary as int);
            lemma_views_subrange(tokens@, boundary as int, n as int);
        }
        let function = match parse(slice_subrange(tokens, 0, boundary)) {
            Ok(expr) => expr,
            Err(error) => {
                return Err(error);
            },
        };
        let parameter = match parse(slice_subrange(tokens, boundary, n)) {
            Ok(expr) => expr,
            Err(error) => {
                return Err(error);
            },
        };
        return Ok(Expr::app(function, parameter));
    }
    let operator = find_operator(tokens);
    if operator > 0 {
        let op = match &tokens[operator] {
            Token::Operator(Op::Not) => {
                return Err(SyntaxError::new(tokens[operator].clone()));
            },
            Token::Operator(op) => *op,
            _ => {
                return Err(SyntaxError::new(tokens[operator].clone()));
            },
        };
        proof {
            lemma_views_subrange(tokens@, 0, operator as int);
            lemma_views_subrange(tokens@, operator + 1, n as int);
        }
        let lhs = match parse(slice_subrange(tokens, 0, operator)) {
            Ok(expr) => expr,
            Err(error) => {
                return Err(error);
            },
        };
        let rhs = match parse(slice_subrange(tokens, operator + 1, n)) {
            Ok(expr) => expr,
            Err(error) => {
                return Err(error);
            },
        };
        return match build_binary(op, lhs, rhs) {
            Some(expr) => Ok(expr),
            None => Err(SyntaxError::new(tokens[operator].clone())),
        };
    }
    parse_terminal(tokens)
}

} // verus!
