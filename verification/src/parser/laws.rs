//! What holds of every slice that the parser accepts.

use vstd::prelude::*;
use crate::ast::Term;
use crate::lexer::{flush, first_illegal, lex_spec, scan, Op, Paren, TokenView};
use crate::numeral::{all_digits, is_digit, lemma_fraction_is_numeral, lemma_integer_is_float};
use crate::parser::grammar::{
    boundary_at, boundary_before, colon_before, depth, fractional, is_abstraction, is_close,
    lemma_boundary_before, lemma_colon_before, lemma_operator_in, lemma_question_from, nesting,
    op_sup_spec, operator_in, parse_spec, question_from, word, wrapped,
};
use crate::text::is_word_char;

verus! {

/// The slice in one more pair of parentheses.
pub open spec fn enclose(t: Seq<TokenView>) -> Seq<TokenView> {
    seq![TokenView::Parentheses(Paren::Open)] + t + seq![TokenView::Parentheses(Paren::Close)]
}

/// The slice in `n` more pairs of parentheses.
pub open spec fn enclose_times(t: Seq<TokenView>, n: nat) -> Seq<TokenView>
    decreases n,
{
    if n == 0 {
        t
    } else {
        enclose(enclose_times(t, (n - 1) as nat))
    }
}

/// Every `)` closes a `(` before it, and every `(` is closed.
pub open spec fn balanced(t: Seq<TokenView>) -> bool {
    &&& depth(t, t.len() as int) == 0
    &&& forall|k: int| 0 <= k <= t.len() ==> #[trigger] depth(t, k) >= 0
}

/// The depth inside a part of a slice is the depth in the slice, counted from
/// where the part begins.
pub proof fn lemma_depth_subrange(t: Seq<TokenView>, from: int, to: int, k: int)
    requires
        0 <= from <= to <= t.len(),
        0 <= k <= to - from,
    ensures
        depth(t.subrange(from, to), k) == depth(t, from + k) - depth(t, from),
    decreases k,
{
    if k > 0 {
        lemma_depth_subrange(t, from, to, k - 1);
        assert(t.subrange(from, to)[k - 1] == t[from + k - 1]);
    }
}

/// A balanced part that begins at depth zero keeps the depth from falling
/// below zero, and ends at depth zero.
proof fn lemma_balanced_part(t: Seq<TokenView>, from: int, to: int)
    requires
        0 <= from <= to <= t.len(),
        balanced(t.subrange(from, to)),
        depth(t, from) == 0,
    ensures
        depth(t, to) == 0,
        forall|k: int| from <= k <= to ==> #[trigger] depth(t, k) >= 0,
{
    let part = t.subrange(from, to);
    lemma_depth_subrange(t, from, to, to - from);
    assert forall|k: int| from <= k <= to implies #[trigger] depth(t, k) >= 0 by {
        lemma_depth_subrange(t, from, to, k - from);
        assert(depth(part, k - from) >= 0);
    }
}

/// A slice that the parser accepts is balanced.
pub proof fn lemma_accepted_is_balanced(t: Seq<TokenView>)
    requires
        parse_spec(t) is Ok,
    ensures
        balanced(t),
    decreases t.len(),
{
    let n = t.len() as int;
    let question = question_from(t, 0);
    let colon = colon_before(t, question, n);
    let boundary = boundary_before(t, n);
    let operator = operator_in(t, n);
    lemma_question_from(t, 0);
    lemma_colon_before(t, question, n);
    lemma_boundary_before(t, n);
    lemma_operator_in(t, n);
    assert(depth(t, 0) == 0);
    if wrapped(t) {
        lemma_accepted_is_balanced(t.subrange(1, n - 1));
        assert(depth(t, 1) == 1);
        let inner = t.subrange(1, n - 1);
        assert forall|k: int| 0 <= k <= n implies #[trigger] depth(t, k) >= 0 by {
            if 1 <= k <= n - 1 {
                lemma_depth_subrange(t, 1, n - 1, k - 1);
                assert(depth(inner, k - 1) >= 0);
            } else if k == n {
                lemma_depth_subrange(t, 1, n - 1, n - 2);
            }
        }
        lemma_depth_subrange(t, 1, n - 1, n - 2);
    } else if is_abstraction(t) {
        assert(t.skip(3) == t.subrange(3, n));
        lemma_accepted_is_balanced(t.subrange(3, n));
        assert(depth(t, 1) == 0);
        assert(depth(t, 2) == 0);
        assert(depth(t, 3) == 0);
        lemma_balanced_part(t, 3, n);
    } else if question < n && colon > question {
        assert(t.skip(colon + 1) == t.subrange(colon + 1, n));
        lemma_accepted_is_balanced(t.subrange(0, question));
        lemma_accepted_is_balanced(t.subrange(question + 1, colon));
        lemma_accepted_is_balanced(t.subrange(colon + 1, n));
        lemma_balanced_part(t, 0, question);
        assert(depth(t, question + 1) == 0);
        lemma_balanced_part(t, question + 1, colon);
        assert(depth(t, colon + 1) == 0);
        lemma_balanced_part(t, colon + 1, n);
    } else if boundary > 0 {
        assert(t.skip(boundary) == t.subrange(boundary, n));
        lemma_accepted_is_balanced(t.subrange(0, boundary));
        lemma_accepted_is_balanced(t.subrange(boundary, n));
        lemma_balanced_part(t, 0, boundary);
        lemma_balanced_part(t, boundary, n);
    } else if operator > 0 {
        assert(t.skip(operator + 1) == t.subrange(operator + 1, n));
        lemma_accepted_is_balanced(t.subrange(0, operator));
        lemma_accepted_is_balanced(t.subrange(operator + 1, n));
        lemma_balanced_part(t, 0, operator);
        assert(depth(t, operator + 1) == 0);
        lemma_balanced_part(t, operator + 1, n);
    } else {
        assert(1 <= n <= 3);
        assert(nesting(t[0]) == 0);
        assert(depth(t, 1) == 0);
        if n >= 2 {
            assert(nesting(t[1]) == 0);
            assert(depth(t, 2) == 0);
        }
        if n >= 3 {
            assert(nesting(t[2]) == 0);
            assert(depth(t, 3) == 0);
        }
    }
}

/// A pair of parentheses round a slice that the parser accepts does not
/// change the expression.
pub proof fn lemma_parentheses(t: Seq<TokenView>)
    requires
        parse_spec(t) is Ok,
    ensures
        parse_spec(enclose(t)) == parse_spec(t),
{
    let w = enclose(t);
    let n = t.len() as int;
    lemma_accepted_is_balanced(t);
    assert(w.subrange(1, n + 1) == t);
    assert(depth(w, 0) == 0);
    assert(depth(w, 1) == 1);
    assert forall|k: int| 1 <= k < w.len() implies #[trigger] depth(w, k) != 0 by {
        lemma_depth_subrange(w, 1, n + 1, k - 1);
        assert(depth(t, k - 1) >= 0);
    }
    assert(wrapped(w));
}

/// Any number of pairs of parentheses round a slice that the parser accepts
/// leaves the expression as it is.
pub proof fn lemma_redundant_parentheses(t: Seq<TokenView>, n: nat)
    requires
        parse_spec(t) is Ok,
    ensures
        parse_spec(enclose_times(t, n)) == parse_spec(t),
    decreases n,
{
    if n > 0 {
        lemma_redundant_parentheses(t, (n - 1) as nat);
        lemma_parentheses(enclose_times(t, (n - 1) as nat));
    }
}

/// The application of what `function` denotes to what `parameter` denotes;
/// the error of the function, else that of the parameter, where there is one.
pub open spec fn apply(
    function: Result<Term, Option<TokenView>>,
    parameter: Result<Term, Option<TokenView>>,
) -> Result<Term, Option<TokenView>> {
    match function {
        Ok(function) => match parameter {
            Ok(parameter) => Ok(
                Term::App { function: Box::new(function), parameter: Box::new(parameter) },
            ),
            Err(error) => Err(error),
        },
        Err(error) => Err(error),
    }
}

/// Whether the slice splits as a conditional.
pub open spec fn is_conditional(t: Seq<TokenView>) -> bool {
    question_from(t, 0) < t.len() && colon_before(t, question_from(t, 0), t.len() as int)
        > question_from(t, 0)
}

/// Application associates to the left: an identifier at the end of a slice,
/// behind an identifier or a `)`, is the argument of all that stands before
/// it, unless the slice is an abstraction or a conditional.
pub proof fn lemma_trailing_argument(t: Seq<TokenView>)
    requires
        t.len() >= 2,
        t[t.len() - 1] is Identifier,
        t[t.len() - 2] is Identifier || is_close(t[t.len() - 2]),
        !is_abstraction(t),
        !is_conditional(t),
    ensures
        parse_spec(t) == apply(
            parse_spec(t.subrange(0, t.len() - 1)),
            parse_spec(t.skip(t.len() - 1)),
        ),
{
    let n = t.len() as int;
    assert(depth(t, n) == depth(t, n - 1));
    assert(boundary_at(t, n - 1));
    assert(boundary_before(t, n) == n - 1);
}

/// Three identifiers in a row: the first applied to the second, and the
/// result applied to the third.
pub proof fn lemma_application_associates_left(f: Seq<char>, x: Seq<char>, y: Seq<char>)
    requires
        word(f) is Some,
        word(x) is Some,
        word(y) is Some,
    ensures
        parse_spec(
            seq![TokenView::Identifier(f), TokenView::Identifier(x), TokenView::Identifier(y)],
        ) == Ok::<Term, Option<TokenView>>(
            Term::App {
                function: Box::new(
                    Term::App {
                        function: Box::new(word(f)->0),
                        parameter: Box::new(word(x)->0),
                    },
                ),
                parameter: Box::new(word(y)->0),
            },
        ),
{
    let t = seq![TokenView::Identifier(f), TokenView::Identifier(x), TokenView::Identifier(y)];
    let front = t.subrange(0, 2);
    lemma_no_question(t, 0);
    lemma_no_question(front, 0);
    lemma_trailing_argument(t);
    lemma_trailing_argument(front);
    lemma_single_identifier(f);
    lemma_single_identifier(x);
    lemma_single_identifier(y);
    assert(front.subrange(0, 1) == seq![TokenView::Identifier(f)]);
    assert(front.skip(1) == seq![TokenView::Identifier(x)]);
    assert(t.skip(2) == seq![TokenView::Identifier(y)]);
}

/// A slice without `?` has no question at depth zero.
proof fn lemma_no_question(t: Seq<TokenView>, from: int)
    requires
        0 <= from,
        forall|i: int| 0 <= i < t.len() ==> #[trigger] t[i] != TokenView::QuestionMark,
    ensures
        question_from(t, from) >= t.len(),
    decreases t.len() - from,
{
    if from < t.len() {
        lemma_no_question(t, from + 1);
    }
}

/// A slice without operators splits at none.
proof fn lemma_no_operator(t: Seq<TokenView>, n: int)
    requires
        n <= t.len(),
        forall|i: int| 0 <= i < t.len() ==> !(#[trigger] t[i] is Operator),
    ensures
        operator_in(t, n) == 0,
    decreases n,
{
    if n > 0 {
        lemma_no_operator(t, n - 1);
    }
}

/// An identifier that stands alone denotes what its text says.
pub proof fn lemma_single_identifier(text: Seq<char>)
    ensures
        parse_spec(seq![TokenView::Identifier(text)]) == (match word(text) {
            Some(term) => Ok::<Term, Option<TokenView>>(term),
            None => Err(Some(TokenView::Identifier(text))),
        }),
{
    let t = seq![TokenView::Identifier(text)];
    lemma_no_question(t, 0);
    lemma_no_operator(t, 1);
    assert(boundary_before(t, 1) == 0);
}

/// The tokens of a run of characters of identifiers: nothing yet, and the
/// run as the identifier that has begun.
proof fn lemma_scan_run(s: Seq<char>, n: int)
    requires
        0 <= n <= s.len(),
        forall|i: int| 0 <= i < n ==> is_word_char(#[trigger] s[i]),
    ensures
        scan(s, n) == (Seq::<TokenView>::empty(), s.take(n)),
        first_illegal(s, 0) == first_illegal(s, n),
    decreases n,
{
    if n > 0 {
        lemma_scan_run(s, n - 1);
        assert(s.take(n - 1).push(s[n - 1]) =~= s.take(n));
        lemma_legal_prefix(s, 0, n);
    } else {
        assert(s.take(0) =~= Seq::<char>::empty());
    }
}

/// Legal characters are passed over in the search for an illegal one.
proof fn lemma_legal_prefix(s: Seq<char>, from: int, to: int)
    requires
        0 <= from <= to <= s.len(),
        forall|i: int| from <= i < to ==> crate::lexer::is_legal(#[trigger] s[i]),
    ensures
        first_illegal(s, from) == first_illegal(s, to),
    decreases to - from,
{
    if from < to {
        lemma_legal_prefix(s, from + 1, to);
    }
}

/// A text of digits is one token, and denotes the number literal with that
/// numeral.
pub proof fn lemma_whole_literal(digits: Seq<char>)
    requires
        digits.len() > 0,
        all_digits(digits),
    ensures
        lex_spec(digits) == Ok::<Seq<TokenView>, crate::lexer::error::LexerError>(
            seq![TokenView::Identifier(digits)],
        ),
        parse_spec(seq![TokenView::Identifier(digits)]) == Ok::<Term, Option<TokenView>>(
            Term::NumericLiteral { value: digits },
        ),
{
    let n = digits.len() as int;
    assert forall|i: int| 0 <= i < n implies is_word_char(#[trigger] digits[i]) by {
        assert(is_digit(digits[i]));
    }
    lemma_scan_run(digits, n);
    assert(digits.take(n) =~= digits);
    assert(flush(Seq::<TokenView>::empty(), digits) =~= seq![TokenView::Identifier(digits)]);
    lemma_single_identifier(digits);
    assert(is_digit(digits[0]));
    assert(digits.skip(0) =~= digits);
    lemma_integer_is_float(digits);
}

/// A text of digits, a point and digits is three tokens, and denotes the
/// number literal with that numeral.
pub proof fn lemma_fractional_literal(whole: Seq<char>, fraction: Seq<char>)
    requires
        whole.len() > 0,
        all_digits(whole),
        fraction.len() > 0,
        all_digits(fraction),
    ensures
        lex_spec(fractional(whole, fraction)) == Ok::<
            Seq<TokenView>,
            crate::lexer::error::LexerError,
        >(
            seq![
                TokenView::Identifier(whole),
                TokenView::Dot,
                TokenView::Identifier(fraction),
            ],
        ),
        parse_spec(
            seq![TokenView::Identifier(whole), TokenView::Dot, TokenView::Identifier(fraction)],
        ) == Ok::<Term, Option<TokenView>>(
            Term::NumericLiteral { value: fractional(whole, fraction) },
        ),
{
    let s = fractional(whole, fraction);
    let w = whole.len() as int;
    let n = s.len() as int;
    let t = seq![TokenView::Identifier(whole), TokenView::Dot, TokenView::Identifier(fraction)];
    assert forall|i: int| 0 <= i < w implies is_word_char(#[trigger] s[i]) by {
        assert(is_digit(whole[i]));
    }
    lemma_scan_run(s, w);
    assert(s.take(w) =~= whole);
    assert(s[w] == '.');
    assert(scan(s, w + 1) == (
        flush(Seq::<TokenView>::empty(), whole).push(TokenView::Dot),
        Seq::<char>::empty(),
    ));
    assert(flush(Seq::<TokenView>::empty(), whole).push(TokenView::Dot) =~= seq![
        TokenView::Identifier(whole),
        TokenView::Dot,
    ]);
    lemma_scan_fraction(s, whole, fraction, n);
    assert(s.subrange(w + 1, n) =~= fraction);
    assert(flush(seq![TokenView::Identifier(whole), TokenView::Dot], fraction) =~= t);
    assert forall|i: int| 0 <= i < n implies crate::lexer::is_legal(#[trigger] s[i]) by {
        if i < w {
            assert(is_digit(whole[i]));
        } else if i > w {
            assert(is_digit(fraction[i - w - 1]));
        }
    }
    lemma_legal_prefix(s, 0, n);

    lemma_no_question(t, 0);
    lemma_no_operator(t, 3);
    assert(boundary_before(t, 3) == 0) by {
        reveal_with_fuel(boundary_before, 4);
    }
    lemma_fraction_is_numeral(whole, fraction);
}

/// The tokens of the digits behind the point.
proof fn lemma_scan_fraction(s: Seq<char>, whole: Seq<char>, fraction: Seq<char>, n: int)
    requires
        s == fractional(whole, fraction),
        whole.len() > 0,
        all_digits(fraction),
        whole.len() + 1 <= n <= s.len(),
        scan(s, whole.len() as int + 1) == (
            seq![TokenView::Identifier(whole), TokenView::Dot],
            Seq::<char>::empty(),
        ),
    ensures
        scan(s, n) == (
            seq![TokenView::Identifier(whole), TokenView::Dot],
            s.subrange(whole.len() as int + 1, n),
        ),
    decreases n,
{
    let w = whole.len() as int;
    if n > w + 1 {
        lemma_scan_fraction(s, whole, fraction, n - 1);
        assert(is_digit(fraction[n - 1 - w - 1]));
        assert(s.subrange(w + 1, n - 1).push(s[n - 1]) =~= s.subrange(w + 1, n));
    } else {
        assert(s.subrange(w + 1, n) =~= Seq::<char>::empty());
    }
}

/// Whether an operator adds or subtracts.
pub open spec fn is_additive(t: TokenView) -> bool {
    t == TokenView::Operator(Op::Plus) || t == TokenView::Operator(Op::Minus)
}

/// Whether an operator multiplies or divides.
pub open spec fn is_multiplicative(t: TokenView) -> bool {
    t == TokenView::Operator(Op::Asterisk) || t == TokenView::Operator(Op::Slash)
}

/// An operator at depth zero that does not begin the slice.
pub open spec fn operator_at(t: Seq<TokenView>, i: int) -> bool {
    1 <= i < t.len() && t[i] is Operator && depth(t, i) == 0
}

/// The last place before `n` where an additive operator stands at depth
/// zero; zero where there is none.
pub open spec fn last_additive(t: Seq<TokenView>, n: int) -> int
    decreases n,
{
    if n <= 1 {
        0
    } else if operator_at(t, n - 1) && is_additive(t[n - 1]) {
        n - 1
    } else {
        last_additive(t, n - 1)
    }
}

/// The last place before `n` where a multiplicative operator stands at depth
/// zero; zero where there is none.
pub open spec fn last_multiplicative(t: Seq<TokenView>, n: int) -> int
    decreases n,
{
    if n <= 1 {
        0
    } else if operator_at(t, n - 1) && is_multiplicative(t[n - 1]) {
        n - 1
    } else {
        last_multiplicative(t, n - 1)
    }
}

/// The places that `last_additive` and `last_multiplicative` name hold such
/// operators.
proof fn lemma_last_operators(t: Seq<TokenView>, n: int)
    ensures
        last_additive(t, n) != 0 ==> 1 <= last_additive(t, n) < n && is_additive(
            t[last_additive(t, n)],
        ),
        last_multiplicative(t, n) != 0 ==> 1 <= last_multiplicative(t, n) < n
            && is_multiplicative(t[last_multiplicative(t, n)]),
    decreases n,
{
    if n > 1 {
        lemma_last_operators(t, n - 1);
    }
}

/// Multiplication and division bind tighter than addition and subtraction:
/// where the operators of a slice at depth zero are arithmetic, the slice
/// splits at the last `+` or `-`, and at the last `*` or `/` only where it
/// has no `+` or `-`.
pub proof fn lemma_precedence(t: Seq<TokenView>, n: int)
    requires
        0 <= n <= t.len(),
        forall|i: int|
            operator_at(t, i) && i < n ==> is_additive(#[trigger] t[i]) || is_multiplicative(t[i]),
    ensures
        operator_in(t, n) == (if last_additive(t, n) != 0 {
            last_additive(t, n)
        } else {
            last_multiplicative(t, n)
        }),
    decreases n,
{
    if n > 0 {
        lemma_precedence(t, n - 1);
        lemma_operator_in(t, n - 1);
        lemma_last_operators(t, n - 1);
        if n - 1 >= 1 && operator_at(t, n - 1) {
            assert(is_additive(t[n - 1]) || is_multiplicative(t[n - 1]));
        }
    }
}

} // verus!
