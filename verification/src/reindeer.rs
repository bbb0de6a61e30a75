//! Reindeer: their strength added up, and the winners of their contest.

use vstd::prelude::*;

verus! {

/// The sum of the first `count` strengths.
pub open spec fn running_total(strengths: Seq<i32>, count: nat) -> int
    decreases count,
{
    if count == 0 {
        0
    } else {
        running_total(strengths, (count - 1) as nat) + strengths[count - 1]
    }
}

/// Whether the strengths can be added one after the other in 32 bits with a
/// sign.
pub open spec fn adds_up(strengths: Seq<i32>) -> bool {
    forall|count: nat|
        count <= strengths.len() ==> i32::MIN <= #[trigger] running_total(strengths, count)
            <= i32::MAX
}

/// The strength of all reindeer together. There is none where the sum
/// leaves the range of 32 bits with a sign on the way.
pub fn sum_strength(strengths: &Vec<i32>) -> (total: Option<i32>)
    ensures
        match total {
            Some(sum) => adds_up(strengths@) && sum == running_total(
                strengths@,
                strengths@.len(),
            ),
            None => !adds_up(strengths@),
        },
{
    let n = strengths.len();
    let mut sum: i32 = 0;
    let mut i: usize = 0;
    while i < n
        invariant
            i <= n,
            n == strengths@.len(),
            sum == running_total(strengths@, i as nat),
            forall|count: nat|
                count <= i ==> i32::MIN <= #[trigger] running_total(strengths@, count) <= i32::MAX,
        decreases n - i,
    {
        let wide: i64 = sum as i64 + strengths[i] as i64;
        assert(wide == running_total(strengths@, (i + 1) as nat));
        if wide < i32::MIN as i64 || wide > i32::MAX as i64 {
            return None;
        }
        sum = wide as i32;
        i += 1;
    }
    Some(sum)
}

/// Whether `i` is the place of the greatest of `keys`, the last such place
/// if the greatest occurs more than once.
pub open spec fn is_last_max(keys: Seq<i64>, i: int) -> bool {
    &&& 0 <= i < keys.len()
    &&& forall|j: int| 0 <= j < keys.len() ==> keys[j] <= keys[i]
    &&& forall|j: int| i < j < keys.len() ==> keys[j] < keys[i]
}

/// The place of the greatest of `keys`; of several that are equal, the
/// last. An empty row has none.
pub fn last_max(keys: &Vec<i64>) -> (place: Option<usize>)
    ensures
        match place {
            Some(i) => is_last_max(keys@, i as int),
            None => keys@.len() == 0,
        },
{
    let n = keys.len();
    if n == 0 {
        return None;
    }
    let mut best: usize = 0;
    let mut i: usize = 1;
    while i < n
        invariant
            1 <= i <= n,
            n == keys@.len(),
            best < i,
            forall|j: int| 0 <= j < i ==> keys@[j] <= keys@[best as int],
            forall|j: int| best < j < i ==> keys@[j] < keys@[best as int],
        decreases n - i,
    {
        if keys[i] >= keys[best] {
            best = i;
        }
        i += 1;
    }
    Some(best)
}

/// A reindeer in the contest, by what it is judged on. Its speed is given
/// as a rank: a whole number that is greater where the speed is.
#[derive(Clone, Copy, Debug, PartialEq, Eq, Structural)]
pub struct Entrant {
    pub speed_rank: i64,
    pub height: u32,
    pub snow_magic_power: u32,
    pub candies: u32,
}

/// The places of the four winners among the entrants.
#[derive(Clone, Copy, Debug, PartialEq, Eq, Structural)]
pub struct Winners {
    pub fastest: usize,
    pub tallest: usize,
    pub magician: usize,
    pub consumer: usize,
}

/// The speed ranks of the entrants.
pub open spec fn speed_ranks(entrants: Seq<Entrant>) -> Seq<i64> {
    Seq::new(entrants.len(), |i: int| entrants[i].speed_rank)
}

/// The heights of the entrants.
pub open spec fn heights(entrants: Seq<Entrant>) -> Seq<i64> {
    Seq::new(entrants.len(), |i: int| entrants[i].height as i64)
}

/// The snow magic powers of the entrants.
pub open spec fn powers(entrants: Seq<Entrant>) -> Seq<i64> {
    Seq::new(entrants.len(), |i: int| entrants[i].snow_magic_power as i64)
}

/// The candies that the entrants ate.
pub open spec fn candies(entrants: Seq<Entrant>) -> Seq<i64> {
    Seq::new(entrants.len(), |i: int| entrants[i].candies as i64)
}

/// Whether `winners` names the winners among `entrants`: in each of the
/// four trials the greatest, and of several that are equal the last.
pub open spec fn are_winners(entrants: Seq<Entrant>, winners: Winners) -> bool {
    &&& is_last_max(speed_ranks(entrants), winners.fastest as int)
    &&& is_last_max(heights(entrants), winners.tallest as int)
    &&& is_last_max(powers(entrants), winners.magician as int)
    &&& is_last_max(candies(entrants), winners.consumer as int)
}

fn column(entrants: &Vec<Entrant>, trial: u8) -> (keys: Vec<i64>)
    requires
        trial < 4,
    ensures
        keys@ == match trial {
            0u8 => speed_ranks(entrants@),
            1u8 => heights(entrants@),
            2u8 => powers(entrants@),
            _ => candies(entrants@),
        },
{
    let mut keys: Vec<i64> = Vec::new();
    let n = entrants.len();
    let mut i: usize = 0;
    while i < n
        invariant
            i <= n,
            n == entrants@.len(),
            trial < 4,
            keys@.len() == i,
            forall|j: int|
                0 <= j < i ==> keys@[j] == match trial {
                    0u8 => entrants@[j].speed_rank,
                    1u8 => entrants@[j].height as i64,
                    2u8 => entrants@[j].snow_magic_power as i64,
                    _ => entrants@[j].candies as i64,
                },
        decreases n - i,
    {
        let entrant = &entrants[i];
        let key: i64 = if trial == 0 {
            entrant.speed_rank
        } else if trial == 1 {
            entrant.height as i64
        } else if trial == 2 {
            entrant.snow_magic_power as i64
        } else {
            entrant.candies as i64
        };
        keys.push(key);
        i += 1;
    }
    proof {
        if trial == 0 {
            assert(keys@ =~= speed_ranks(entrants@));
        } else if trial == 1 {
            assert(keys@ =~= heights(entrants@));
        } else if trial == 2 {
            assert(keys@ =~= powers(entrants@));
        } else {
            assert(keys@ =~= candies(entrants@));
        }
    }
    keys
}

/// Judges the contest: the fastest, the tallest, the one with the most snow
/// magic and the one that ate the most candies. A contest without
/// entrants has no winners.
pub fn contest(entrants: &Vec<Entrant>) -> (winners: Option<Winners>)
    ensures
        match winners {
            Some(found) => are_winners(entrants@, found),
            None => entrants@.len() == 0,
        },
{
    let fastest = match last_max(&column(entrants, 0)) {
        Some(place) => place,
        None => {
            return None;
        },
    };
    let tallest = match last_max(&column(entrants, 1)) {
        Some(place) => place,
        None => {
            return None;
        },
    };
    let magician = match last_max(&column(entrants, 2)) {
        Some(place) => place,
        None => {
            return None;
        },
    };
    let consumer = match last_max(&column(entrants, 3)) {
        Some(place) => place,
        None => {
            return None;
        },
    };
    Some(Winners { fastest, tallest, magician, consumer })
}

} // verus!
