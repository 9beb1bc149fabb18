//! Decimal numerals: the texts that denote a double-precision number.
//!
//! The library never computes with floating-point values. A number literal is
//! kept as its text, which is known to follow the grammar below, and the host
//! that runs the evaluation machine turns it into a number.
//!
//! ```text
//! Float   ::= Sign? ( 'inf' | 'infinity' | 'nan' | Decimal )
//! Decimal ::= ( Digit+ | Digit+ '.' Digit* | Digit* '.' Digit+ ) Exp?
//! Exp     ::= 'e' Sign? Digit+
//! Sign    ::= [+-]
//! Digit   ::= [0-9]
//! ```
//!
//! Letters are matched without regard to case.

use vstd::prelude::*;
use crate::text::chars_of;

verus! {

pub open spec fn is_digit(c: char) -> bool {
    '0' <= c <= '9'
}

pub open spec fn is_sign(c: char) -> bool {
    c == '+' || c == '-'
}

/// `c` is the lower-case ASCII letter `letter` or its upper-case form.
pub open spec fn is_letter(c: char, letter: char) -> bool {
    c == letter || c as int + 32 == letter as int
}

/// `s` spells `word`, a word of lower-case ASCII letters, in any mix of cases.
pub open spec fn spells(s: Seq<char>, word: Seq<char>) -> bool {
    &&& s.len() == word.len()
    &&& forall|i: int| 0 <= i < s.len() ==> is_letter(#[trigger] s[i], word[i])
}

pub open spec fn all_digits(s: Seq<char>) -> bool {
    forall|i: int| 0 <= i < s.len() ==> is_digit(#[trigger] s[i])
}

/// The end of the run of digits of `s` that starts at `from`.
pub open spec fn digits_end(s: Seq<char>, from: int) -> int
    decreases s.len() - from,
{
    if 0 <= from < s.len() && is_digit(s[from]) {
        digits_end(s, from + 1)
    } else {
        from
    }
}

/// `Sign? Digit+`
pub open spec fn is_integer_numeral(s: Seq<char>) -> bool {
    let start: int = if s.len() > 0 && is_sign(s[0]) { 1 } else { 0 };
    start < s.len() && all_digits(s.skip(start))
}

/// `'e' Sign? Digit+`
pub open spec fn is_exponent(s: Seq<char>) -> bool {
    &&& s.len() >= 2
    &&& is_letter(s[0], 'e')
    &&& is_integer_numeral(s.skip(1))
}

/// `( Digit+ | Digit+ '.' Digit* | Digit* '.' Digit+ ) Exp?`
pub open spec fn is_decimal(s: Seq<char>) -> bool {
    let whole = digits_end(s, 0);
    let has_point = whole < s.len() && s[whole] == '.';
    let mantissa_end = if has_point { digits_end(s, whole + 1) } else { whole };
    let digits = if has_point { mantissa_end - 1 } else { mantissa_end };
    &&& digits > 0
    &&& (mantissa_end == s.len() || is_exponent(s.skip(mantissa_end)))
}

/// `'inf' | 'infinity' | 'nan' | Decimal`
pub open spec fn is_unsigned_float(s: Seq<char>) -> bool {
    ||| spells(s, seq!['i', 'n', 'f'])
    ||| spells(s, seq!['i', 'n', 'f', 'i', 'n', 'i', 't', 'y'])
    ||| spells(s, seq!['n', 'a', 'n'])
    ||| is_decimal(s)
}

/// `Sign? ( 'inf' | 'infinity' | 'nan' | Decimal )`
pub open spec fn is_float_numeral(s: Seq<char>) -> bool {
    if s.len() > 0 && is_sign(s[0]) {
        is_unsigned_float(s.skip(1))
    } else {
        is_unsigned_float(s)
    }
}

fn digit(c: char) -> (r: bool)
    ensures
        r == is_digit(c),
{
    '0' <= c && c <= '9'
}

fn sign(c: char) -> (r: bool)
    ensures
        r == is_sign(c),
{
    c == '+' || c == '-'
}

fn letter(c: char, lower: char, upper: char) -> (r: bool)
    requires
        upper as int + 32 == lower as int,
    ensures
        r == is_letter(c, lower),
{
    c == lower || c == upper
}

/// Skips the digits of `s` from `from` on.
fn skip_digits(s: &Vec<char>, from: usize) -> (end: usize)
    requires
        from <= s.len(),
    ensures
        end == digits_end(s@, from as int),
        from <= end <= s.len(),
        all_digits(s@.subrange(from as int, end as int)),
{
    let mut end = from;
    while end < s.len() && digit(s[end])
        invariant
            from <= end <= s.len(),
            digits_end(s@, from as int) == digits_end(s@, end as int),
            all_digits(s@.subrange(from as int, end as int)),
        decreases s.len() - end,
    {
        end = end + 1;
    }
    end
}

proof fn lemma_digits_end_all(s: Seq<char>, from: int)
    requires
        0 <= from <= s.len(),
    ensures
        from <= digits_end(s, from) <= s.len(),
        all_digits(s.subrange(from, digits_end(s, from))),
        digits_end(s, from) == s.len() <==> all_digits(s.skip(from)),
    decreases s.len() - from,
{
    if from < s.len() && is_digit(s[from]) {
        lemma_digits_end_all(s, from + 1);
        let end = digits_end(s, from);
        assert forall|i: int| 0 <= i < end - from implies is_digit(
            #[trigger] s.subrange(from, end)[i],
        ) by {
            if i > 0 {
                assert(s.subrange(from + 1, end)[i - 1] == s[from + i]);
            }
        }
        if all_digits(s.skip(from)) {
            assert forall|i: int| 0 <= i < s.len() - from - 1 implies is_digit(
                #[trigger] s.skip(from + 1)[i],
            ) by {
                assert(s.skip(from)[i + 1] == s[from + 1 + i]);
            }
        }
        if end == s.len() {
            assert forall|i: int| 0 <= i < s.len() - from implies is_digit(
                #[trigger] s.skip(from)[i],
            ) by {
                if i > 0 {
                    assert(s.skip(from + 1)[i - 1] == s[from + i]);
                }
            }
        }
    } else if from < s.len() {
        assert(s.skip(from)[0] == s[from]);
    }
}

/// `Sign? Digit+` from `from` to the end of `s`.
fn integer_from(s: &Vec<char>, from: usize) -> (r: bool)
    requires
        from <= s.len(),
    ensures
        r == is_integer_numeral(s@.skip(from as int)),
{
    let start = if from < s.len() && sign(s[from]) { from + 1 } else { from };
    let end = skip_digits(s, start);
    proof {
        lemma_digits_end_all(s@, start as int);
        assert(s@.skip(from as int).skip(start - from) == s@.skip(start as int));
    }
    start < s.len() && end == s.len()
}

/// `Decimal` from `from` to the end of `s`.
fn decimal_from(s: &Vec<char>, from: usize) -> (r: bool)
    requires
        from <= s.len(),
    ensures
        r == is_decimal(s@.skip(from as int)),
{
    let ghost rest = s@.skip(from as int);
    let whole = skip_digits(s, from);
    proof {
        lemma_digits_end_skip(s@, from as int, from as int);
    }
    let has_point = whole < s.len() && s[whole] == '.';
    let mantissa_end = if has_point { skip_digits(s, whole + 1) } else { whole };
    let digits = if has_point { mantissa_end - from - 1 } else { mantissa_end - from };
    proof {
        if has_point {
            lemma_digits_end_skip(s@, from as int, whole + 1);
        }
        assert(rest.skip(mantissa_end - from) == s@.skip(mantissa_end as int));
    }
    if digits == 0 {
        false
    } else if mantissa_end == s.len() {
        true
    } else if s.len() - mantissa_end >= 2 && letter(s[mantissa_end], 'e', 'E') {
        proof {
            assert(s@.skip(mantissa_end as int).skip(1) == s@.skip(mantissa_end + 1));
        }
        integer_from(s, mantissa_end + 1)
    } else {
        false
    }
}

proof fn lemma_digits_end_skip(s: Seq<char>, offset: int, from: int)
    requires
        0 <= offset <= from <= s.len(),
    ensures
        digits_end(s.skip(offset), from - offset) == digits_end(s, from) - offset,
    decreases s.len() - from,
{
    if from < s.len() && is_digit(s[from]) {
        lemma_digits_end_skip(s, offset, from + 1);
    }
}

/// `s` from `from` to its end spells the three-letter word `a b c`.
fn word3_from(s: &Vec<char>, from: usize, lower: [char; 3], upper: [char; 3]) -> (r: bool)
    requires
        from <= s.len(),
        forall|i: int| 0 <= i < 3 ==> upper[i] as int + 32 == lower[i] as int,
    ensures
        r == spells(s@.skip(from as int), lower@),
{
    if s.len() - from != 3 {
        return false;
    }
    let r = letter(s[from], lower[0], upper[0]) && letter(s[from + 1], lower[1], upper[1])
        && letter(s[from + 2], lower[2], upper[2]);
    proof {
        let rest = s@.skip(from as int);
        assert(rest[0] == s@[from as int]);
        assert(rest[1] == s@[from + 1]);
        assert(rest[2] == s@[from + 2]);
    }
    r
}

/// `s` from `from` to its end spells `infinity`.
fn infinity_from(s: &Vec<char>, from: usize) -> (r: bool)
    requires
        from <= s.len(),
    ensures
        r == spells(s@.skip(from as int), seq!['i', 'n', 'f', 'i', 'n', 'i', 't', 'y']),
{
    if s.len() - from != 8 {
        return false;
    }
    let r = letter(s[from], 'i', 'I') && letter(s[from + 1], 'n', 'N') && letter(
        s[from + 2],
        'f',
        'F',
    ) && letter(s[from + 3], 'i', 'I') && letter(s[from + 4], 'n', 'N') && letter(
        s[from + 5],
        'i',
        'I',
    ) && letter(s[from + 6], 't', 'T') && letter(s[from + 7], 'y', 'Y');
    proof {
        let rest = s@.skip(from as int);
        assert(rest[0] == s@[from as int]);
        assert(rest[1] == s@[from + 1]);
        assert(rest[2] == s@[from + 2]);
        assert(rest[3] == s@[from + 3]);
        assert(rest[4] == s@[from + 4]);
        assert(rest[5] == s@[from + 5]);
        assert(rest[6] == s@[from + 6]);
        assert(rest[7] == s@[from + 7]);
    }
    r
}

/// An integer numeral is a numeral.
pub proof fn lemma_integer_is_float(s: Seq<char>)
    requires
        is_integer_numeral(s),
    ensures
        is_float_numeral(s),
{
    let start: int = if is_sign(s[0]) { 1 } else { 0 };
    let rest = s.skip(start);
    assert(rest.skip(0) == rest);
    lemma_digits_end_all(rest, 0);
    assert(is_decimal(rest));
    if start == 0 {
        assert(rest == s);
    }
}

/// Digits, a point and digits are a numeral.
pub proof fn lemma_fraction_is_numeral(whole: Seq<char>, fraction: Seq<char>)
    requires
        whole.len() > 0,
        all_digits(whole),
        all_digits(fraction),
    ensures
        is_float_numeral(whole + seq!['.'] + fraction),
{
    let s = whole + seq!['.'] + fraction;
    let w = whole.len() as int;
    assert(is_digit(whole[0]));
    lemma_digits_end_all(s, 0);
    lemma_digits_run(s, 0, w);
    lemma_digits_end_all(s, w + 1);
    assert(s.skip(w + 1) =~= fraction);
    assert(is_decimal(s));
}

/// A run of digits that ends before a character that is no digit.
proof fn lemma_digits_run(s: Seq<char>, from: int, to: int)
    requires
        0 <= from <= to < s.len(),
        forall|i: int| from <= i < to ==> is_digit(#[trigger] s[i]),
        !is_digit(s[to]),
    ensures
        digits_end(s, from) == to,
    decreases to - from,
{
    if from < to {
        lemma_digits_run(s, from + 1, to);
    }
}

/// Whether `text` is a numeral: `Sign? ( 'inf' | 'infinity' | 'nan' | Decimal )`.
pub fn is_numeral(text: &str) -> (r: bool)
    ensures
        r == is_float_numeral(text@),
{
    let s = chars_of(text);
    let from: usize = if s.len() > 0 && sign(s[0]) { 1 } else { 0 };
    proof {
        assert(s@.skip(0) == s@);
    }
    word3_from(&s, from, ['i', 'n', 'f'], ['I', 'N', 'F']) || infinity_from(&s, from) || word3_from(
        &s,
        from,
        ['n', 'a', 'n'],
        ['N', 'A', 'N'],
    ) || decimal_from(&s, from)
}

/// Whether `text` is an integer numeral: `Sign? Digit+`.
pub fn is_integer(text: &str) -> (r: bool)
    ensures
        r == is_integer_numeral(text@),
{
    let s = chars_of(text);
    proof {
        assert(s@.skip(0) == s@);
    }
    integer_from(&s, 0)
}

/// A decimal numeral: a text that follows the grammar of this module.
#[derive(Debug, PartialEq)]
pub struct Numeral {
    text: String,
}

impl View for Numeral {
    type V = Seq<char>;

    closed spec fn view(&self) -> Seq<char> {
        self.text@
    }
}

impl Numeral {
    #[verifier::type_invariant]
    spec fn well_formed(self) -> bool {
        is_float_numeral(self.text@)
    }

    /// The numeral with the given text, if the text is one.
    pub fn new(text: &str) -> (r: Option<Numeral>)
        ensures
            r is Some <==> is_float_numeral(text@),
            r matches Some(numeral) ==> numeral@ == text@,
    {
        if is_numeral(text) {
            Some(Numeral { text: text.to_owned() })
        } else {
            None
        }
    }

    /// The numeral's text.
    pub fn as_str(&self) -> (r: &str)
        ensures
            r@ == self@,
            is_float_numeral(r@),
    {
        proof {
            use_type_invariant(self);
        }
        self.text.as_str()
    }

}

impl Clone for Numeral {
    fn clone(&self) -> (r: Self)
        ensures
            r@ == self@,
    {
        proof {
            use_type_invariant(self);
        }
        Numeral { text: self.text.clone() }
    }
}

} // verus!
