//! Cells of the globe: reading the number of a cell from its binary
//! digits.

use vstd::prelude::*;
use crate::text::chars_of;
use crate::text::tail_of;
use crate::text::unsigned_part;

verus! {

/// Whether `c` is a binary digit.
pub open spec fn is_bit(c: char) -> bool {
    c == '0' || c == '1'
}

/// Whether `text` is made of binary digits only.
pub open spec fn all_bits(text: Seq<char>) -> bool {
    forall|i: int| 0 <= i < text.len() ==> is_bit(#[trigger] text[i])
}

/// The number that a row of binary digits writes.
pub open spec fn binary(digits: Seq<char>) -> nat
    decreases digits.len(),
{
    if digits.len() == 0 {
        0
    } else {
        binary(digits.drop_last()) * 2 + if digits.last() == '1' {
            1nat
        } else {
            0nat
        }
    }
}

/// The number of 64 bits that `text` writes in binary digits, with `+`
/// before them or not; nothing where it writes none.
pub open spec fn cell_of(text: Seq<char>) -> Option<u64> {
    let digits = unsigned_part(text, false);
    if digits.len() > 0 && all_bits(digits) && binary(digits) <= u64::MAX {
        Some(binary(digits) as u64)
    } else {
        None
    }
}

/// A row of binary digits writes no less than any of its beginnings.
proof fn binary_grows(digits: Seq<char>, k: int)
    requires
        0 <= k <= digits.len(),
    ensures
        binary(digits.take(k)) <= binary(digits),
    decreases digits.len() - k,
{
    if k < digits.len() {
        binary_grows(digits, k + 1);
        assert(digits.take(k + 1).drop_last() =~= digits.take(k));
    } else {
        assert(digits.take(k) =~= digits);
    }
}

/// Reads the number of a cell from its binary digits.
pub fn parse_cell(binary_text: &str) -> (cell: Option<u64>)
    ensures
        cell == cell_of(binary_text@),
{
    let chars = chars_of(binary_text);
    let digits = if chars.len() > 0 && chars[0] == '+' {
        tail_of(&chars, 1)
    } else {
        tail_of(&chars, 0)
    };
    assert(digits@ =~= unsigned_part(binary_text@, false));
    let n = digits.len();
    if n == 0 {
        return None;
    }
    let mut value: u64 = 0;
    let mut i: usize = 0;
    assert(digits@.take(0) =~= Seq::empty());
    while i < n
        invariant
            i <= n,
            n == digits@.len(),
            n > 0,
            digits@ == unsigned_part(binary_text@, false),
            value == binary(digits@.take(i as int)),
            forall|j: int| 0 <= j < i ==> is_bit(#[trigger] digits@[j]),
        decreases n - i,
    {
        let c = digits[i];
        let bit: u64 = if c == '0' {
            0
        } else if c == '1' {
            1
        } else {
            return None;
        };
        proof {
            assert(digits@.take(i + 1).drop_last() =~= digits@.take(i as int));
            binary_grows(digits@, i + 1);
        }
        if value > (u64::MAX - bit) / 2 {
            return None;
        }
        value = value * 2 + bit;
        i += 1;
    }
    assert(digits@.take(n as int) =~= digits@);
    Some(value)
}

} // verus!
