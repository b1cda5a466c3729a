//! The texts that denote a floating-point number: an optional sign, then one
//! of the words `inf`, `infinity` and `nan` in any mix of upper and lower
//! case, or a decimal number with an optional exponent.

use vstd::prelude::*;
use vstd::slice::slice_subrange;

verus! {

/// Whether `c` is one of the ten decimal digits.
pub open spec fn is_digit(c: char) -> bool {
    0x30 <= c as u32 <= 0x39
}

/// Whether `c` is a plus or a minus sign.
pub open spec fn is_sign(c: char) -> bool {
    c == '+' || c == '-'
}

/// Whether `c` opens an exponent.
pub open spec fn is_exponent_mark(c: char) -> bool {
    c == 'e' || c == 'E'
}

/// Whether `c` is the lower-case letter `letter` or its upper-case form.
pub open spec fn is_letter(c: char, letter: char) -> bool {
    c == letter || c as u32 + 0x20 == letter as u32
}

/// Whether `s` spells `word`, a word in lower-case letters, in any mix of
/// upper and lower case.
pub open spec fn spells(s: Seq<char>, word: Seq<char>) -> bool {
    &&& s.len() == word.len()
    &&& forall|i: int| 0 <= i < s.len() ==> is_letter(#[trigger] s[i], word[i])
}

/// Whether `s` names an infinity or the value that is no number.
pub open spec fn is_special(s: Seq<char>) -> bool {
    ||| spells(s, seq!['i', 'n', 'f'])
    ||| spells(s, seq!['i', 'n', 'f', 'i', 'n', 'i', 't', 'y'])
    ||| spells(s, seq!['n', 'a', 'n'])
}

/// Whether `s` is made of digits alone.
pub open spec fn all_digits(s: Seq<char>) -> bool {
    forall|i: int| 0 <= i < s.len() ==> is_digit(#[trigger] s[i])
}

/// Whether `s` is a decimal number: digits with at most one point among
/// them, and at least one digit.
pub open spec fn is_decimal(s: Seq<char>) -> bool {
    &&& forall|i: int| 0 <= i < s.len() ==> is_digit(#[trigger] s[i]) || s[i] == '.'
    &&& exists|i: int| 0 <= i < s.len() && is_digit(#[trigger] s[i])
    &&& forall|i: int, j: int|
        0 <= i < j < s.len() && #[trigger] s[i] == '.' ==> #[trigger] s[j] != '.'
}

/// `s` without the sign it starts with, if it starts with one.
pub open spec fn unsigned(s: Seq<char>) -> Seq<char> {
    if s.len() > 0 && is_sign(s[0]) {
        s.drop_first()
    } else {
        s
    }
}

/// Whether `s` is an exponent: the mark, an optional sign, and at least one
/// digit.
pub open spec fn is_exponent(s: Seq<char>) -> bool {
    &&& s.len() > 0
    &&& is_exponent_mark(s[0])
    &&& unsigned(s.drop_first()).len() > 0
    &&& all_digits(unsigned(s.drop_first()))
}

/// Whether `s` is a decimal number up to `k` and nothing or an exponent from
/// there.
pub open spec fn is_number_split_at(s: Seq<char>, k: int) -> bool {
    &&& 0 <= k <= s.len()
    &&& is_decimal(s.subrange(0, k))
    &&& k == s.len() || is_exponent(s.subrange(k, s.len() as int))
}

/// Whether `s` is a decimal number with an optional exponent behind it.
pub open spec fn is_number(s: Seq<char>) -> bool {
    exists|k: int| is_number_split_at(s, k)
}

/// Whether `s` denotes a floating-point number.
pub open spec fn is_float_literal(s: Seq<char>) -> bool {
    is_special(unsigned(s)) || is_number(unsigned(s))
}

/// Tells whether `c` is a decimal digit.
pub fn char_is_digit(c: char) -> (b: bool)
    ensures
        b == is_digit(c),
{
    let code: u32 = c as u32;
    0x30 <= code && code <= 0x39
}

/// Tells whether `c` is the lower-case letter `letter` or its upper-case
/// form.
pub fn char_is_letter(c: char, letter: char) -> (b: bool)
    ensures
        b == is_letter(c, letter),
{
    let code: u32 = c as u32;
    let wanted: u32 = letter as u32;
    c == letter || (code <= 0x10FFFF && code + 0x20 == wanted)
}

/// Tells whether `s` is made of digits alone.
pub fn all_digits_text(s: &[char]) -> (b: bool)
    ensures
        b == all_digits(s@),
{
    let mut i: usize = 0;
    while i < s.len()
        invariant
            i <= s.len(),
            forall|j: int| 0 <= j < i ==> is_digit(#[trigger] s@[j]),
        decreases s.len() - i,
    {
        if !char_is_digit(s[i]) {
            return false;
        }
        i += 1;
    }
    true
}

/// Tells whether `s` spells the three-letter word `a`, `b`, `c`.
fn spells_three(s: &[char], a: char, b: char, c: char) -> (yes: bool)
    ensures
        yes == spells(s@, seq![a, b, c]),
{
    if s.len() != 3 {
        return false;
    }
    let yes = char_is_letter(s[0], a) && char_is_letter(s[1], b) && char_is_letter(s[2], c);
    proof {
        let word = seq![a, b, c];
        if yes {
            assert forall|i: int| 0 <= i < s@.len() implies is_letter(#[trigger] s@[i], word[i]) by {
                assert(i == 0 || i == 1 || i == 2);
            }
        } else {
            assert(!is_letter(s@[0], word[0]) || !is_letter(s@[1], word[1]) || !is_letter(
                s@[2],
                word[2],
            ));
        }
    }
    yes
}

/// Tells whether `s` spells `infinity`.
fn spells_infinity(s: &[char]) -> (yes: bool)
    ensures
        yes == spells(s@, seq!['i', 'n', 'f', 'i', 'n', 'i', 't', 'y']),
{
    if s.len() != 8 {
        return false;
    }
    let yes = char_is_letter(s[0], 'i') && char_is_letter(s[1], 'n') && char_is_letter(s[2], 'f')
        && char_is_letter(s[3], 'i') && char_is_letter(s[4], 'n') && char_is_letter(s[5], 'i')
        && char_is_letter(s[6], 't') && char_is_letter(s[7], 'y');
    proof {
        let word = seq!['i', 'n', 'f', 'i', 'n', 'i', 't', 'y'];
        if yes {
            assert forall|i: int| 0 <= i < s@.len() implies is_letter(#[trigger] s@[i], word[i]) by {
                assert(i == 0 || i == 1 || i == 2 || i == 3 || i == 4 || i == 5 || i == 6 || i
                    == 7);
            }
        } else {
            assert(!is_letter(s@[0], word[0]) || !is_letter(s@[1], word[1]) || !is_letter(
                s@[2],
                word[2],
            ) || !is_letter(s@[3], word[3]) || !is_letter(s@[4], word[4]) || !is_letter(
                s@[5],
                word[5],
            ) || !is_letter(s@[6], word[6]) || !is_letter(s@[7], word[7]));
        }
    }
    yes
}

/// Tells whether `s` names an infinity or the value that is no number.
pub fn is_special_text(s: &[char]) -> (b: bool)
    ensures
        b == is_special(s@),
{
    spells_three(s, 'i', 'n', 'f') || spells_infinity(s) || spells_three(s, 'n', 'a', 'n')
}

/// Tells whether `s` is a decimal number.
pub fn is_decimal_text(s: &[char]) -> (b: bool)
    ensures
        b == is_decimal(s@),
{
    let mut seen_digit: bool = false;
    let mut seen_point: bool = false;
    let ghost mut digit_at: int = 0;
    let ghost mut point_at: int = 0;
    let mut i: usize = 0;
    while i < s.len()
        invariant
            i <= s.len(),
            forall|j: int| 0 <= j < i ==> is_digit(#[trigger] s@[j]) || s@[j] == '.',
            seen_digit ==> 0 <= digit_at < i && is_digit(s@[digit_at]),
            !seen_digit ==> forall|j: int| 0 <= j < i ==> !is_digit(#[trigger] s@[j]),
            seen_point ==> 0 <= point_at < i && s@[point_at] == '.',
            seen_point ==> forall|j: int| 0 <= j < i && j != point_at ==> #[trigger] s@[j] != '.',
            !seen_point ==> forall|j: int| 0 <= j < i ==> #[trigger] s@[j] != '.',
        decreases s.len() - i,
    {
        let c = s[i];
        if char_is_digit(c) {
            seen_digit = true;
            proof {
                digit_at = i as int;
            }
        } else if c == '.' {
            if seen_point {
                assert(s@[point_at] == '.' && s@[i as int] == '.');
                return false;
            }
            seen_point = true;
            proof {
                point_at = i as int;
            }
        } else {
            assert(!(is_digit(s@[i as int]) || s@[i as int] == '.'));
            return false;
        }
        i += 1;
    }
    seen_digit
}

/// Tells whether `s` is an exponent.
pub fn is_exponent_text(s: &[char]) -> (b: bool)
    ensures
        b == is_exponent(s@),
{
    if s.len() == 0 || !(s[0] == 'e' || s[0] == 'E') {
        return false;
    }
    let digits_at: usize = if s.len() > 1 && (s[1] == '+' || s[1] == '-') {
        2
    } else {
        1
    };
    let digits = slice_subrange(s, digits_at, s.len());
    proof {
        let rest = s@.drop_first();
        assert(rest.len() > 0 ==> rest[0] == s@[1]);
        assert(unsigned(rest) =~= digits@);
    }
    digits.len() > 0 && all_digits_text(digits)
}

/// The place of the first exponent mark in `s`, or the length of `s` where
/// it holds none.
fn exponent_mark_position(s: &[char]) -> (k: usize)
    ensures
        k <= s.len(),
        forall|j: int| 0 <= j < k ==> !is_exponent_mark(#[trigger] s@[j]),
        k < s.len() ==> is_exponent_mark(s@[k as int]),
{
    let mut k: usize = 0;
    while k < s.len() && !(s[k] == 'e' || s[k] == 'E')
        invariant
            k <= s.len(),
            forall|j: int| 0 <= j < k ==> !is_exponent_mark(#[trigger] s@[j]),
        decreases s.len() - k,
    {
        k += 1;
    }
    k
}

/// A number can be split in one place only: at its first exponent mark, or
/// at its end where it has none.
proof fn lemma_split_is_at_mark(s: Seq<char>, k: int, split: int)
    requires
        0 <= k <= s.len(),
        forall|j: int| 0 <= j < k ==> !is_exponent_mark(#[trigger] s[j]),
        k < s.len() ==> is_exponent_mark(s[k]),
        is_number_split_at(s, split),
    ensures
        split == k,
{
    let head = s.subrange(0, split);
    if split < k {
        let tail = s.subrange(split, s.len() as int);
        assert(tail[0] == s[split]);
    }
    if k < split {
        assert(head[k] == s[k]);
        assert(is_digit(head[k]) || head[k] == '.');
    }
}

/// Tells whether `s` is a decimal number with an optional exponent.
pub fn is_number_text(s: &[char]) -> (b: bool)
    ensures
        b == is_number(s@),
{
    let k = exponent_mark_position(s);
    let b = is_decimal_text(slice_subrange(s, 0, k)) && (k == s.len() || is_exponent_text(
        slice_subrange(s, k, s.len()),
    ));
    proof {
        if b {
            assert(is_number_split_at(s@, k as int));
        } else if is_number(s@) {
            let split = choose|split: int| is_number_split_at(s@, split);
            lemma_split_is_at_mark(s@, k as int, split);
        }
    }
    b
}

/// Tells whether `s` denotes a floating-point number.
pub fn is_float_text(s: &[char]) -> (b: bool)
    ensures
        b == is_float_literal(s@),
{
    let from: usize = if s.len() > 0 && (s[0] == '+' || s[0] == '-') {
        1
    } else {
        0
    };
    let body = slice_subrange(s, from, s.len());
    assert(body@ =~= unsigned(s@));
    is_special_text(body) || is_number_text(body)
}

} // verus!
