//! What the parser computes, stated on models.
//!
//! A slice of tokens is matched as a whole against the productions, in this
//! order: a pair of parentheses round the slice, an abstraction, a
//! conditional, an application, a binary operation, a terminal. The first
//! production that fits decides, and its parts are parsed in the same way.

use vstd::prelude::*;
use crate::ast::{ArithmeticOp, ComparisonOp, Term};
use crate::lexer::{Op, Paren, TokenView};
use crate::numeral::{is_float_numeral, is_integer_numeral};
use crate::text::is_letter_char;

verus! {

pub open spec fn is_open(t: TokenView) -> bool {
    t == TokenView::Parentheses(Paren::Open)
}

pub open spec fn is_close(t: TokenView) -> bool {
    t == TokenView::Parentheses(Paren::Close)
}

/// What a token adds to the nesting depth.
pub open spec fn nesting(t: TokenView) -> int {
    if is_open(t) {
        1
    } else if is_close(t) {
        -1
    } else {
        0
    }
}

/// The nesting depth after the first `n` tokens of `t`: the parentheses
/// opened minus those closed.
pub open spec fn depth(t: Seq<TokenView>, n: int) -> int
    decreases n,
{
    if n <= 0 {
        0
    } else {
        depth(t, n - 1) + nesting(t[n - 1])
    }
}

/// The slice stands in one pair of parentheses: it begins with `(`, ends with
/// `)`, and the depth does not return to zero before the last token.
pub open spec fn wrapped(t: Seq<TokenView>) -> bool {
    &&& t.len() >= 2
    &&& is_open(t[0])
    &&& is_close(t[t.len() - 1])
    &&& forall|k: int| 1 <= k < t.len() ==> #[trigger] depth(t, k) != 0
}

/// The slice without the pairs of parentheses that stand round the whole of it.
pub open spec fn strip_spec(t: Seq<TokenView>) -> Seq<TokenView>
    decreases t.len(),
{
    if wrapped(t) {
        strip_spec(t.subrange(1, t.len() - 1))
    } else {
        t
    }
}

/// `\ name . rest`
pub open spec fn is_abstraction(t: Seq<TokenView>) -> bool {
    &&& t.len() >= 3
    &&& t[0] == TokenView::Lambda
    &&& t[1] is Identifier
    &&& t[2] == TokenView::Dot
}

/// A `?` at depth zero.
pub open spec fn question_at(t: Seq<TokenView>, i: int) -> bool {
    &&& 0 <= i < t.len()
    &&& t[i] == TokenView::QuestionMark
    &&& depth(t, i) == 0
}

/// The first `?` at depth zero at or after `from`; the length of `t` where
/// there is none.
pub open spec fn question_from(t: Seq<TokenView>, from: int) -> int
    decreases t.len() - from,
{
    if from >= t.len() {
        t.len() as int
    } else if question_at(t, from) {
        from
    } else {
        question_from(t, from + 1)
    }
}

/// A `:` with as many `(` as `)` behind it.
pub open spec fn colon_at(t: Seq<TokenView>, j: int) -> bool {
    &&& 0 <= j < t.len()
    &&& t[j] == TokenView::Colon
    &&& depth(t, j) == depth(t, t.len() as int)
}

/// The last such `:` behind `low` and before `high`; `low` where there is none.
pub open spec fn colon_before(t: Seq<TokenView>, low: int, high: int) -> int
    decreases high - low,
{
    if high - 1 <= low {
        low
    } else if colon_at(t, high - 1) {
        high - 1
    } else {
        colon_before(t, low, high - 1)
    }
}

/// A token that cannot begin an argument.
pub open spec fn continues(t: TokenView) -> bool {
    ||| t is Operator
    ||| t == TokenView::QuestionMark
    ||| t == TokenView::Colon
    ||| t == TokenView::Dot
}

/// A function ends before `i` and its argument begins at `i`: the token
/// before is an identifier or a `)`, the token at `i` can begin an argument,
/// and from `i` on there are as many `(` as `)`.
pub open spec fn boundary_at(t: Seq<TokenView>, i: int) -> bool {
    &&& 1 <= i < t.len()
    &&& depth(t, i) == depth(t, t.len() as int)
    &&& (t[i - 1] is Identifier || is_close(t[i - 1]))
    &&& !continues(t[i])
}

/// The last boundary before `high`; zero where there is none.
pub open spec fn boundary_before(t: Seq<TokenView>, high: int) -> int
    decreases high,
{
    if high <= 1 {
        0
    } else if boundary_at(t, high - 1) {
        high - 1
    } else {
        boundary_before(t, high - 1)
    }
}

/// Whether `first` binds tighter than `second`: a multiplicative operator
/// against an additive one.
pub open spec fn op_sup_spec(first: Op, second: Op) -> bool {
    (first == Op::Asterisk || first == Op::Slash) && (second == Op::Plus || second == Op::Minus)
}

/// The operator at which the first `n` tokens split, as an index; zero where
/// there is none. Going from left to right, each operator at depth zero takes
/// the place of the one chosen so far, unless it binds tighter. An operator
/// that begins the slice is never chosen.
pub open spec fn operator_in(t: Seq<TokenView>, n: int) -> int
    decreases n,
{
    if n <= 0 {
        0
    } else {
        let chosen = operator_in(t, n - 1);
        let i = n - 1;
        if t[i] is Operator && depth(t, i) == 0 && (chosen == 0 || !(t[chosen] is Operator
            && op_sup_spec(t[i]->Operator_0, t[chosen]->Operator_0))) {
            i
        } else {
            chosen
        }
    }
}

/// The node that a binary operator builds.
pub open spec fn binary(op: Op, lhs: Term, rhs: Term) -> Option<Term> {
    let lhs = Box::new(lhs);
    let rhs = Box::new(rhs);
    match op {
        Op::Plus => Some(Term::Arithmetic { operation: ArithmeticOp::Add, lhs, rhs }),
        Op::Minus => Some(Term::Arithmetic { operation: ArithmeticOp::Sub, lhs, rhs }),
        Op::Asterisk => Some(Term::Arithmetic { operation: ArithmeticOp::Mul, lhs, rhs }),
        Op::Slash => Some(Term::Arithmetic { operation: ArithmeticOp::Div, lhs, rhs }),
        Op::Sup => Some(Term::Comparison { operation: ComparisonOp::Gt, lhs, rhs }),
        Op::SupEq => Some(Term::Comparison { operation: ComparisonOp::Gte, lhs, rhs }),
        Op::Inf => Some(Term::Comparison { operation: ComparisonOp::Lt, lhs, rhs }),
        Op::InfEq => Some(Term::Comparison { operation: ComparisonOp::Lte, lhs, rhs }),
        Op::Eq => Some(Term::Comparison { operation: ComparisonOp::Eq, lhs, rhs }),
        Op::Neq => Some(Term::Comparison { operation: ComparisonOp::Neq, lhs, rhs }),
        Op::Not => None,
    }
}

/// The error that names the first token of `t`.
pub open spec fn refuse(t: Seq<TokenView>) -> Result<Term, Option<TokenView>> {
    if t.len() == 0 {
        Err(None)
    } else {
        Err(Some(t[0]))
    }
}

/// The term of an identifier that stands alone: `true` and `false` are the
/// booleans, any other text that begins with a letter is a variable, also
/// where it spells `inf` or `nan`, and a text that begins otherwise is a
/// number if it is a numeral.
pub open spec fn word(text: Seq<char>) -> Option<Term> {
    if text == seq!['t', 'r', 'u', 'e'] {
        Some(Term::BooleanLiteral { value: true })
    } else if text == seq!['f', 'a', 'l', 's', 'e'] {
        Some(Term::BooleanLiteral { value: false })
    } else if text.len() > 0 && is_letter_char(text[0]) {
        Some(Term::Var { name: text })
    } else if is_float_numeral(text) {
        Some(Term::NumericLiteral { value: text })
    } else {
        None
    }
}

/// The numeral `whole . fraction`.
pub open spec fn fractional(whole: Seq<char>, fraction: Seq<char>) -> Seq<char> {
    whole + seq!['.'] + fraction
}

/// A slice that no other production fits: a boolean, a variable or a number.
///
/// Two identifiers with a point between them are the numeral `whole.fraction`,
/// which the tokenizer has split at the point. An identifier before a point
/// is a number if it is an integer numeral. Anything else is refused with the
/// first token of the slice, and the empty slice with none.
pub open spec fn terminal(t: Seq<TokenView>) -> Result<Term, Option<TokenView>> {
    if t.len() == 3 && t[0] is Identifier && t[1] == TokenView::Dot && t[2] is Identifier {
        let text = fractional(t[0]->Identifier_0, t[2]->Identifier_0);
        if is_float_numeral(text) {
            Ok(Term::NumericLiteral { value: text })
        } else {
            refuse(t)
        }
    } else if t.len() == 2 && t[0] is Identifier && t[1] == TokenView::Dot {
        if is_integer_numeral(t[0]->Identifier_0) {
            Ok(Term::NumericLiteral { value: t[0]->Identifier_0 })
        } else {
            refuse(t)
        }
    } else if t.len() == 1 && t[0] is Identifier {
        match word(t[0]->Identifier_0) {
            Some(term) => Ok(term),
            None => refuse(t),
        }
    } else {
        refuse(t)
    }
}

/// The expression that a slice of tokens denotes, or the error.
///
/// A slice in parentheses denotes what stands in them. `\ name . rest` is an
/// abstraction whose body is the rest. A slice with a `?` at depth zero, and
/// behind it a `:` with as many `(` as `)` behind it, is a conditional: it
/// splits at the first such `?` and the last such `:`. A slice with a place
/// where a function ends and an argument begins is an application: it splits
/// at the last such place. A slice with an operator at depth zero is an
/// operation or a comparison: it splits at the operator that `operator_in`
/// chooses, and is refused with that operator where it is `!`. Any other
/// slice is a terminal. The parts are taken from left to right, and the
/// first error among them is the error of the slice.
pub open spec fn parse_spec(t: Seq<TokenView>) -> Result<Term, Option<TokenView>>
    decreases t.len(),
    via parse_spec_decreases
{
    let question = question_from(t, 0);
    let colon = colon_before(t, question, t.len() as int);
    let boundary = boundary_before(t, t.len() as int);
    let operator = operator_in(t, t.len() as int);
    if wrapped(t) {
        parse_spec(t.subrange(1, t.len() - 1))
    } else if is_abstraction(t) {
        match parse_spec(t.skip(3)) {
            Ok(body) => Ok(Term::Abs { var: t[1]->Identifier_0, body: Box::new(body) }),
            Err(e) => Err(e),
        }
    } else if question < t.len() && colon > question {
        match parse_spec(t.subrange(0, question)) {
            Ok(condition) => match parse_spec(t.subrange(question + 1, colon)) {
                Ok(true_branch) => match parse_spec(t.skip(colon + 1)) {
                    Ok(false_branch) => Ok(
                        Term::Conditional {
                            condition: Box::new(condition),
                            true_branch: Box::new(true_branch),
                            false_branch: Box::new(false_branch),
                        },
                    ),
                    Err(e) => Err(e),
                },
                Err(e) => Err(e),
            },
            Err(e) => Err(e),
        }
    } else if boundary > 0 {
        match parse_spec(t.subrange(0, boundary)) {
            Ok(function) => match parse_spec(t.skip(boundary)) {
                Ok(parameter) => Ok(
                    Term::App { function: Box::new(function), parameter: Box::new(parameter) },
                ),
                Err(e) => Err(e),
            },
            Err(e) => Err(e),
        }
    } else if operator > 0 {
        if t[operator] is Operator && t[operator]->Operator_0 != Op::Not {
            match parse_spec(t.subrange(0, operator)) {
                Ok(lhs) => match parse_spec(t.skip(operator + 1)) {
                    Ok(rhs) => Ok(binary(t[operator]->Operator_0, lhs, rhs)->0),
                    Err(e) => Err(e),
                },
                Err(e) => Err(e),
            }
        } else {
            Err(Some(t[operator]))
        }
    } else {
        terminal(t)
    }
}

/// `question_from` names the first `?` at depth zero from `from` on, or the
/// end of the slice.
pub proof fn lemma_question_from(t: Seq<TokenView>, from: int)
    requires
        0 <= from,
    ensures
        from <= question_from(t, from) || question_from(t, from) == t.len(),
        question_from(t, from) <= t.len() || question_from(t, from) == from,
        question_from(t, from) < t.len() ==> question_at(t, question_from(t, from)),
        forall|k: int| from <= k < question_from(t, from) ==> !question_at(t, k),
    decreases t.len() - from,
{
    if from < t.len() && !question_at(t, from) {
        lemma_question_from(t, from + 1);
    }
}

/// `colon_before` names the last `:` behind `low` and before `high` that has
/// as many `(` as `)` behind it, or `low`.
pub proof fn lemma_colon_before(t: Seq<TokenView>, low: int, high: int)
    ensures
        colon_before(t, low, high) == low || (low < colon_before(t, low, high) < high && colon_at(
            t,
            colon_before(t, low, high),
        )),
        forall|k: int| colon_before(t, low, high) < k < high && low < k ==> !colon_at(t, k),
    decreases high - low,
{
    if high - 1 > low && !colon_at(t, high - 1) {
        lemma_colon_before(t, low, high - 1);
    }
}

/// `boundary_before` names the last boundary before `high`, or zero.
pub proof fn lemma_boundary_before(t: Seq<TokenView>, high: int)
    ensures
        boundary_before(t, high) == 0 || (1 <= boundary_before(t, high) < high && boundary_at(
            t,
            boundary_before(t, high),
        )),
        forall|k: int| boundary_before(t, high) < k < high ==> !boundary_at(t, k),
    decreases high,
{
    if high > 1 && !boundary_at(t, high - 1) {
        lemma_boundary_before(t, high - 1);
    }
}

/// `operator_in` names an operator at depth zero that does not begin the
/// slice, or zero.
pub proof fn lemma_operator_in(t: Seq<TokenView>, n: int)
    ensures
        operator_in(t, n) == 0 || (1 <= operator_in(t, n) < n && t[operator_in(t, n)] is Operator
            && depth(t, operator_in(t, n)) == 0),
    decreases n,
{
    if n > 0 {
        lemma_operator_in(t, n - 1);
    }
}

/// Parentheses round the whole slice do not change what it denotes.
pub proof fn lemma_strip(t: Seq<TokenView>)
    ensures
        !wrapped(strip_spec(t)),
        parse_spec(strip_spec(t)) == parse_spec(t),
        strip_spec(t).len() <= t.len(),
    decreases t.len(),
{
    if wrapped(t) {
        lemma_strip(t.subrange(1, t.len() - 1));
    }
}

#[via_fn]
proof fn parse_spec_decreases(t: Seq<TokenView>) {
    lemma_question_from(t, 0);
    lemma_colon_before(t, question_from(t, 0), t.len() as int);
    lemma_boundary_before(t, t.len() as int);
    lemma_operator_in(t, t.len() as int);
}

} // verus!
