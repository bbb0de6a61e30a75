use cch23_challenge::orders::popular;
use cch23_challenge::reindeer::contest;
use cch23_challenge::reindeer::last_max;
use cch23_challenge::reindeer::sum_strength;
use cch23_challenge::reindeer::Entrant;
use cch23_challenge::reindeer::Winners;

#[test]
fn strengths_are_added() {
    assert_eq!(sum_strength(&vec![5, 8, 6, 7]), Some(26));
    assert_eq!(sum_strength(&vec![]), Some(0));
    assert_eq!(sum_strength(&vec![-4, 4, -1]), Some(-1));
    assert_eq!(sum_strength(&vec![i32::MAX]), Some(i32::MAX));
    assert_eq!(sum_strength(&vec![i32::MIN, -1, 1]), None);
    assert_eq!(sum_strength(&vec![i32::MAX, 1, -1]), None);
    assert_eq!(sum_strength(&vec![i32::MAX, -1, 1]), Some(i32::MAX));
}

#[test]
fn greatest_key_wins_and_the_last_of_equals() {
    assert_eq!(last_max(&vec![1, 7, 3]), Some(1));
    assert_eq!(last_max(&vec![7, 7, 3, 7, 2]), Some(3));
    assert_eq!(last_max(&vec![i64::MIN]), Some(0));
    assert_eq!(last_max(&vec![]), None);
    assert_eq!(last_max(&vec![-5, -2, -9]), Some(1));
}

fn rank(speed: f32) -> i64 {
    let bits = speed.to_bits() as i32;
    (bits ^ ((((bits >> 31) as u32) >> 1) as i32)) as i64
}

#[test]
fn contest_names_four_winners() {
    // Dasher, Dancer, Prancer, Vixen.
    let entrants = vec![
        Entrant { speed_rank: rank(50.4), height: 80, snow_magic_power: 9001, candies: 2 },
        Entrant { speed_rank: rank(48.2), height: 65, snow_magic_power: 4004, candies: 5 },
        Entrant { speed_rank: rank(51.1), height: 51, snow_magic_power: 3003, candies: 3 },
        Entrant { speed_rank: rank(23.6), height: 78, snow_magic_power: 2002, candies: 8 },
    ];
    assert_eq!(contest(&entrants), Some(Winners {
        fastest: 2,
        tallest: 0,
        magician: 0,
        consumer: 3,
    }));
    assert_eq!(contest(&Vec::new()), None);
}

#[test]
fn contest_gives_a_tie_to_the_last() {
    let same = Entrant { speed_rank: rank(-1.5), height: 1, snow_magic_power: 1, candies: 1 };
    let entrants = vec![same, same, same];
    assert_eq!(contest(&entrants), Some(Winners {
        fastest: 2,
        tallest: 2,
        magician: 2,
        consumer: 2,
    }));
    assert!(rank(-1.5) < rank(-0.0));
    assert!(rank(-0.0) < rank(0.0));
    assert!(rank(0.0) < rank(1.5));
}

#[test]
fn most_popular_gift() {
    assert_eq!(popular(&vec![Some(3), Some(9), Some(4)]), Some(1));
    assert_eq!(popular(&vec![Some(9), None, Some(9), Some(1)]), Some(2));
    assert_eq!(popular(&vec![None, None]), Some(1));
    assert_eq!(popular(&vec![None, Some(i64::MIN)]), Some(1));
    assert_eq!(popular(&vec![Some(i64::MIN), None]), Some(0));
    assert_eq!(popular(&vec![]), None);
}
