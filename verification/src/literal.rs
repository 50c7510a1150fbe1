//! Which lines are decimal floating-point literals.
//!
//! The grammar, with letters in either case:
//!
//! ```text
//! Literal ::= Sign? ( 'inf' | 'infinity' | 'nan' | Number )
//! Number  ::= ( Digit+ | Digit+ '.' Digit* | Digit* '.' Digit+ ) Exp?
//! Exp     ::= 'e' Sign? Digit+
//! Sign    ::= [+-]
//! Digit   ::= [0-9]
//! ```
//!
//! Only the shape of a line is decided here. What number a literal stands
//! for is floating-point work and is left to the caller.

use vstd::prelude::*;

verus! {

/// Whether `c` is one of the ten decimal digits.
pub open spec fn is_digit(c: char) -> bool {
    '0' <= c <= '9'
}

/// Whether `c` is a sign.
pub open spec fn is_sign(c: char) -> bool {
    c == '+' || c == '-'
}

/// Whether `c` is the lower-case letter `letter` or its upper-case form.
pub open spec fn is_letter(c: char, letter: char) -> bool {
    c == letter || c as u32 + 32 == letter as u32
}

/// How many digits stand in `s` from index `from` on, up to the first
/// character that is none.
pub open spec fn digit_run(s: Seq<char>, from: int) -> nat
    decreases s.len() - from,
{
    if 0 <= from < s.len() && is_digit(s[from]) {
        1 + digit_run(s, from + 1)
    } else {
        0
    }
}

/// Whether `s` from index `from` on spells `word`, whatever the case of its
/// letters. `word` is in lower case.
pub open spec fn spells_word(s: Seq<char>, from: int, word: Seq<char>) -> bool {
    &&& s.len() - from == word.len()
    &&& forall|i: int| 0 <= i < word.len() ==> is_letter(#[trigger] s[from + i], word[i])
}

/// Whether `s` from index `from` on is one of the words for the values that
/// digits cannot write: `inf`, `infinity` and `nan`.
pub open spec fn is_special(s: Seq<char>, from: int) -> bool {
    ||| spells_word(s, from, "inf"@)
    ||| spells_word(s, from, "infinity"@)
    ||| spells_word(s, from, "nan"@)
}

/// Whether `s` from index `from` on is an exponent: the letter `e`, a sign
/// or none, and at least one digit up to the end.
pub open spec fn is_exponent(s: Seq<char>, from: int) -> bool {
    &&& from < s.len()
    &&& is_letter(s[from], 'e')
    &&& {
        let digits = if from + 1 < s.len() && is_sign(s[from + 1]) {
            from + 2
        } else {
            from + 1
        };
        digit_run(s, digits) > 0 && digits + digit_run(s, digits) == s.len()
    }
}

/// Whether `s` from index `from` on is a number: digits with at most one
/// point among them, before them or after them, and then an exponent or
/// none. A point alone is no number.
pub open spec fn is_number(s: Seq<char>, from: int) -> bool {
    let whole = digit_run(s, from);
    let point = from + whole < s.len() && s[from + whole] == '.';
    let fraction = if point {
        digit_run(s, from + whole + 1)
    } else {
        0
    };
    let end = if point {
        from + whole + 1 + fraction
    } else {
        from + whole
    };
    whole + fraction > 0 && (end == s.len() || is_exponent(s, end))
}

/// Whether a line is a decimal floating-point literal: a sign or none, and
/// then a number or one of the special words.
pub open spec fn is_literal(text: Seq<char>) -> bool {
    let from: int = if text.len() > 0 && is_sign(text[0]) {
        1
    } else {
        0
    };
    is_special(text, from) || is_number(text, from)
}

/// Whether `c` is a decimal digit.
fn digit(c: char) -> (yes: bool)
    ensures
        yes == is_digit(c),
{
    '0' <= c && c <= '9'
}

/// Whether `c` is a sign.
fn sign(c: char) -> (yes: bool)
    ensures
        yes == is_sign(c),
{
    c == '+' || c == '-'
}

/// Whether `c` is `letter` in either case.
fn letter_in_either_case(c: char, letter: char) -> (yes: bool)
    ensures
        yes == is_letter(c, letter),
{
    c == letter || (c as u32) + 32 == (letter as u32)
}

/// Counts the digits that stand in `text` from `from` on.
fn count_digits(text: &Vec<char>, from: usize) -> (count: usize)
    requires
        from <= text.len(),
    ensures
        count == digit_run(text@, from as int),
        from + count <= text.len(),
{
    let mut i: usize = from;
    while i < text.len() && digit(text[i])
        invariant
            from <= i <= text.len(),
            digit_run(text@, from as int) == (i - from) + digit_run(text@, i as int),
        decreases text.len() - i,
    {
        i += 1;
    }
    i - from
}

/// Whether `text` from `from` on spells `word` in either case.
fn spells_in_either_case(text: &Vec<char>, from: usize, word: &str) -> (yes: bool)
    requires
        from <= text.len(),
    ensures
        yes == spells_word(text@, from as int, word@),
{
    let n: usize = word.unicode_len();
    if text.len() - from != n {
        return false;
    }
    let mut i: usize = 0;
    while i < n
        invariant
            n == word@.len(),
            from + n == text.len(),
            i <= n,
            forall|j: int| 0 <= j < i ==> is_letter(#[trigger] text@[from + j], word@[j]),
        decreases n - i,
    {
        if !letter_in_either_case(text[from + i], word.get_char(i)) {
            return false;
        }
        i += 1;
    }
    true
}

/// Whether `text` from `from` on is one of the special words.
fn special(text: &Vec<char>, from: usize) -> (yes: bool)
    requires
        from <= text.len(),
    ensures
        yes == is_special(text@, from as int),
{
    spells_in_either_case(text, from, "inf") || spells_in_either_case(text, from, "infinity")
        || spells_in_either_case(text, from, "nan")
}

/// Whether `text` from `from` on is an exponent.
fn exponent(text: &Vec<char>, from: usize) -> (yes: bool)
    requires
        from <= text.len(),
    ensures
        yes == is_exponent(text@, from as int),
{
    let length: usize = text.len();
    if from >= length || !letter_in_either_case(text[from], 'e') {
        return false;
    }
    let digits: usize = if from + 1 < length && sign(text[from + 1]) {
        from + 2
    } else {
        from + 1
    };
    let count: usize = count_digits(text, digits);
    count > 0 && digits + count == length
}

/// Whether `text` from `from` on is a number.
fn number(text: &Vec<char>, from: usize) -> (yes: bool)
    requires
        from <= text.len(),
    ensures
        yes == is_number(text@, from as int),
{
    let length: usize = text.len();
    let whole: usize = count_digits(text, from);
    let point: bool = from + whole < length && text[from + whole] == '.';
    let fraction: usize = if point {
        count_digits(text, from + whole + 1)
    } else {
        0
    };
    let end: usize = if point {
        from + whole + 1 + fraction
    } else {
        from + whole
    };
    whole + fraction > 0 && (end == length || exponent(text, end))
}

/// Whether a line is a decimal floating-point literal.
pub fn recognize(text: &Vec<char>) -> (yes: bool)
    ensures
        yes == is_literal(text@),
{
    let from: usize = if text.len() > 0 && sign(text[0]) {
        1
    } else {
        0
    };
    special(text, from) || number(text, from)
}

} // verus!
