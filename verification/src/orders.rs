//! Orders of gifts: which gift is asked for most.

use vstd::prelude::*;

verus! {

/// Whether `a` counts for no more than `b`, an unknown quantity counting
/// for less than any known one.
pub open spec fn no_more(a: Option<i64>, b: Option<i64>) -> bool {
    match (a, b) {
        (None, _) => true,
        (Some(_), None) => false,
        (Some(x), Some(y)) => x <= y,
    }
}

/// Whether `i` is the place of the greatest quantity, the last such place
/// if the greatest occurs more than once.
pub open spec fn is_most(quantities: Seq<Option<i64>>, i: int) -> bool {
    &&& 0 <= i < quantities.len()
    &&& forall|j: int| 0 <= j < quantities.len() ==> no_more(quantities[j], quantities[i])
    &&& forall|j: int|
        i < j < quantities.len() ==> !no_more(quantities[i], #[trigger] quantities[j])
}

fn at_most(a: Option<i64>, b: Option<i64>) -> (yes: bool)
    ensures
        yes == no_more(a, b),
{
    match a {
        None => true,
        Some(x) => match b {
            None => false,
            Some(y) => x <= y,
        },
    }
}

/// The place of the gift that is asked for most, from the quantity asked
/// of each gift; of several that are equal, the last. There is none where
/// no gift is asked for.
pub fn popular(quantities: &Vec<Option<i64>>) -> (place: Option<usize>)
    ensures
        match place {
            Some(i) => is_most(quantities@, i as int),
            None => quantities@.len() == 0,
        },
{
    let n = quantities.len();
    if n == 0 {
        return None;
    }
    let mut best: usize = 0;
    let mut i: usize = 1;
    while i < n
        invariant
            1 <= i <= n,
            n == quantities@.len(),
            best < i,
            forall|j: int| 0 <= j < i ==> no_more(quantities@[j], quantities@[best as int]),
            forall|j: int|
                best < j < i ==> !no_more(quantities@[best as int], #[trigger] quantities@[j]),
        decreases n - i,
    {
        if at_most(quantities[best], quantities[i]) {
            best = i;
        }
        i += 1;
    }
    Some(best)
}

} // verus!
