//! The rules of the password game that read the password letter by letter.

use vstd::prelude::*;
use crate::text::chars_of;
use crate::text::decimal;
use crate::text::digit_of;
use crate::text::digit_value;
use crate::text::is_digit;

verus! {

/// Whether `c` is an ASCII letter.
pub open spec fn is_letter(c: char) -> bool {
    ('a' <= c && c <= 'z') || ('A' <= c && c <= 'Z')
}

/// The digits that `text` ends with.
pub open spec fn trailing_digits(text: Seq<char>) -> Seq<char>
    decreases text.len(),
{
    if text.len() == 0 || !is_digit(text.last()) {
        Seq::empty()
    } else {
        trailing_digits(text.drop_last()).push(text.last())
    }
}

/// What a row of digits counts for: the number it writes, or nothing if
/// that number does not fit in 32 bits. No digits count for nothing.
pub open spec fn counted(digits: Seq<char>) -> nat {
    if decimal(digits) <= u32::MAX {
        decimal(digits)
    } else {
        0
    }
}

/// The sum of the numbers in `text`. A number is a longest row of digits,
/// and it is added when the character after it is read: digits at the very
/// end of the text stay out.
pub open spec fn closed_sum(text: Seq<char>) -> nat
    decreases text.len(),
{
    if text.len() == 0 {
        0
    } else if is_digit(text.last()) {
        closed_sum(text.drop_last())
    } else {
        closed_sum(text.drop_last()) + counted(trailing_digits(text.drop_last()))
    }
}

/// Whether three letters stand at `i`, the first the same as the third.
pub open spec fn is_sandwich_at(text: Seq<char>, i: int) -> bool {
    &&& 0 <= i
    &&& i + 2 < text.len()
    &&& is_letter(text[i])
    &&& is_letter(text[i + 1])
    &&& is_letter(text[i + 2])
    &&& text[i] == text[i + 2]
}

/// Whether `text` holds a letter, any letter, and the first letter again.
pub open spec fn has_sandwich(text: Seq<char>) -> bool {
    exists|i: int| is_sandwich_at(text, i)
}

/// Whether `c` lies between U+2980 and U+2BFF, ends included.
pub open spec fn in_symbol_range(c: char) -> bool {
    '\u{2980}' <= c && c <= '\u{2BFF}'
}

/// Whether `text` holds a character between U+2980 and U+2BFF.
pub open spec fn has_symbol(text: Seq<char>) -> bool {
    exists|i: int| 0 <= i < text.len() && in_symbol_range(#[trigger] text[i])
}

fn letter(c: char) -> (yes: bool)
    ensures
        yes == is_letter(c),
{
    (c >= 'a' && c <= 'z') || (c >= 'A' && c <= 'Z')
}

/// Whether the numbers in `s` add up to 2023. A number is a longest row of
/// digits; one that does not fit in 32 bits counts for nothing, and so do
/// digits that end the password.
pub fn integers_sum_to_2023(s: &str) -> (ok: bool)
    ensures
        ok == (closed_sum(s@) == 2023),
{
    let chars = chars_of(s);
    let n = chars.len();
    let mut run: u64 = 0;
    let mut run_fits = true;
    let mut total: u64 = 0;
    let mut over = false;
    let mut i: usize = 0;
    assert(s@.take(0) =~= Seq::empty());
    while i < n
        invariant
            i <= n,
            n == chars@.len(),
            chars@ == s@,
            run_fits ==> run == decimal(trailing_digits(s@.take(i as int))) && run <= u32::MAX,
            !run_fits ==> decimal(trailing_digits(s@.take(i as int))) > u32::MAX,
            !over ==> total == closed_sum(s@.take(i as int)) && total <= 2023,
            over ==> closed_sum(s@.take(i as int)) > 2023,
        decreases n - i,
    {
        let c = chars[i];
        proof {
            let next = s@.take(i + 1);
            assert(next.drop_last() =~= s@.take(i as int));
            assert(next.last() == c);
            if is_digit(c) {
                assert(trailing_digits(next).drop_last() =~= trailing_digits(s@.take(i as int)));
            }
        }
        match digit_of(c) {
            Some(digit) => {
                if run_fits {
                    let longer = run * 10 + digit;
                    if longer > u32::MAX as u64 {
                        run_fits = false;
                    } else {
                        run = longer;
                    }
                }
            },
            None => {
                let number = if run_fits {
                    run
                } else {
                    0
                };
                if !over {
                    if total + number > 2023 {
                        over = true;
                    } else {
                        total = total + number;
                    }
                }
                run = 0;
                run_fits = true;
            },
        }
        i += 1;
    }
    assert(s@.take(n as int) =~= s@);
    !over && total == 2023
}

/// Whether `s` holds three letters in a row of which the first and the
/// third are the same.
pub fn contains_sandwich(s: &str) -> (found: bool)
    ensures
        found == has_sandwich(s@),
{
    let chars = chars_of(s);
    let n = chars.len();
    if n < 3 {
        return false;
    }
    let mut i: usize = 0;
    while i + 2 < n
        invariant
            n == chars@.len(),
            chars@ == s@,
            i + 2 <= n,
            forall|j: int| 0 <= j < i ==> !is_sandwich_at(s@, j),
        decreases n - i,
    {
        let a = chars[i];
        let b = chars[i + 1];
        let c = chars[i + 2];
        if letter(a) && letter(b) && letter(c) && a == c {
            assert(is_sandwich_at(s@, i as int));
            return true;
        }
        i += 1;
    }
    false
}

/// Whether `s` holds a character between U+2980 and U+2BFF.
pub fn contains_unicode_in_range(s: &str) -> (found: bool)
    ensures
        found == has_symbol(s@),
{
    let chars = chars_of(s);
    let n = chars.len();
    let mut i: usize = 0;
    while i < n
        invariant
            i <= n,
            n == chars@.len(),
            chars@ == s@,
            forall|j: int| 0 <= j < i ==> !in_symbol_range(#[trigger] s@[j]),
        decreases n - i,
    {
        let c = chars[i];
        if c >= '\u{2980}' && c <= '\u{2BFF}' {
            return true;
        }
        i += 1;
    }
    false
}

} // verus!
