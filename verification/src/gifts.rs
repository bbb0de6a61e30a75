//! The gift count: among numbers that come in pairs, the one that has no
//! partner says how many presents to hand out.

use std::collections::HashSet;
use vstd::prelude::*;
use crate::text::chars_of;
use crate::text::lines;
use crate::text::lines_of;
use crate::text::parse_unsigned;
use crate::text::trim;
use crate::text::trimmed;
use crate::text::unsigned_of;

verus! {

broadcast use vstd::std_specs::hash::group_hash_axioms;

/// The number that a line writes, white space at its ends set aside.
pub open spec fn number_of(line: Seq<char>) -> Option<usize> {
    match unsigned_of(trimmed(line), usize::MAX as nat) {
        Some(value) => Some(value as usize),
        None => None,
    }
}

/// The numbers that the lines write, in order. A line that writes no
/// number is passed over.
pub open spec fn numbers_in(rows: Seq<Seq<char>>) -> Seq<usize>
    decreases rows.len(),
{
    if rows.len() == 0 {
        Seq::empty()
    } else {
        match number_of(rows.last()) {
            Some(value) => numbers_in(rows.drop_last()).push(value),
            None => numbers_in(rows.drop_last()),
        }
    }
}

/// How often `x` occurs in `numbers`.
pub open spec fn occurrences(numbers: Seq<usize>, x: usize) -> nat
    decreases numbers.len(),
{
    if numbers.len() == 0 {
        0
    } else {
        occurrences(numbers.drop_last(), x) + if numbers.last() == x {
            1nat
        } else {
            0nat
        }
    }
}

/// Whether `x` is left without a partner: it occurs an odd number of times.
pub open spec fn is_unpaired(numbers: Seq<usize>, x: usize) -> bool {
    occurrences(numbers, x) % 2 == 1
}

/// Whether the number at `i` is the first in `numbers` without a partner.
pub open spec fn is_first_unpaired(numbers: Seq<usize>, i: int) -> bool {
    &&& 0 <= i < numbers.len()
    &&& is_unpaired(numbers, numbers[i])
    &&& forall|j: int| 0 <= j < i ==> !is_unpaired(numbers, #[trigger] numbers[j])
}

/// Whether `answer` is the number without a partner: the first one in
/// `numbers`, or zero if every number has a partner.
pub open spec fn is_odd_one_out(numbers: Seq<usize>, answer: usize) -> bool {
    if exists|i: int| 0 <= i < numbers.len() && is_unpaired(numbers, #[trigger] numbers[i]) {
        exists|i: int| is_first_unpaired(numbers, i) && #[trigger] numbers[i] == answer
    } else {
        answer == 0
    }
}

/// Reads the numbers from a text, one to a line. A line that writes no
/// number is passed over.
pub fn read_numbers(content: &str) -> (numbers: Vec<usize>)
    ensures
        numbers@ == numbers_in(lines(content@)),
{
    let chars = chars_of(content);
    let rows = lines_of(&chars);
    let ghost text = lines(content@);
    let mut numbers: Vec<usize> = Vec::new();
    let n = rows.len();
    let mut i: usize = 0;
    assert(text.take(0) =~= Seq::empty());
    while i < n
        invariant
            i <= n,
            n == rows@.len(),
            n == text.len(),
            forall|r: int| 0 <= r < n ==> (#[trigger] rows@[r])@ == text[r],
            numbers@ == numbers_in(text.take(i as int)),
        decreases n - i,
    {
        let inner = trim(&rows[i]);
        proof {
            assert(text.take(i + 1).drop_last() =~= text.take(i as int));
            assert(text.take(i + 1).last() == text[i as int]);
        }
        match parse_unsigned(&inner, usize::MAX as u64) {
            Some(value) => {
                numbers.push(value as usize);
            },
            None => {},
        }
        i += 1;
    }
    assert(text.take(n as int) =~= text);
    numbers
}

/// Finds the number without a partner: the first number in the row that
/// occurs an odd number of times, or zero if there is none.
pub fn odd_one_out(numbers: &Vec<usize>) -> (answer: usize)
    ensures
        is_odd_one_out(numbers@, answer),
{
    let mut unpaired: HashSet<usize> = HashSet::new();
    let n = numbers.len();
    let mut i: usize = 0;
    assert(numbers@.take(0) =~= Seq::empty());
    while i < n
        invariant
            i <= n,
            n == numbers@.len(),
            forall|x: usize| unpaired@.contains(x) <==> is_unpaired(numbers@.take(i as int), x),
        decreases n - i,
    {
        let number = numbers[i];
        proof {
            assert(numbers@.take(i + 1).drop_last() =~= numbers@.take(i as int));
            assert(numbers@.take(i + 1).last() == number);
        }
        if unpaired.contains(&number) {
            unpaired.remove(&number);
        } else {
            unpaired.insert(number);
        }
        i += 1;
    }
    assert(numbers@.take(n as int) =~= numbers@);
    let mut k: usize = 0;
    while k < n
        invariant
            k <= n,
            n == numbers@.len(),
            forall|x: usize| unpaired@.contains(x) <==> is_unpaired(numbers@, x),
            forall|j: int| 0 <= j < k ==> !is_unpaired(numbers@, #[trigger] numbers@[j]),
        decreases n - k,
    {
        let number = numbers[k];
        if unpaired.contains(&number) {
            assert(is_first_unpaired(numbers@, k as int));
            return number;
        }
        k += 1;
    }
    0
}

/// The number of presents that a text asks for: the number without a
/// partner among the numbers on its lines.
pub fn integers(content: &str) -> (presents: usize)
    ensures
        is_odd_one_out(numbers_in(lines(content@)), presents),
{
    let numbers = read_numbers(content);
    odd_one_out(&numbers)
}

} // verus!
