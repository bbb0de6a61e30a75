use cch23_challenge::ulids::count_ulids;
use cch23_challenge::ulids::timestamp_ms;
use cch23_challenge::ulids::ulids_to_uuids;
use cch23_challenge::ulids::ulids_weekday;
use cch23_challenge::ulids::UlidsError;
use cch23_challenge::ulids::UlidsWeekdayResult;

fn texts(all: &[&str]) -> Vec<String> {
    all.iter().map(|t| t.to_string()).collect()
}

#[test]
fn ulids_become_uuids_in_reverse_order() {
    let ulids = texts(&[
        "01BJQ0E1C3Z56ABCD0E11HYX4M",
        "01BJQ0E1C3Z56ABCD0E11HYX5N",
        "01BJQ0E1C3Z56ABCD0E11HYX6Q",
        "01BJQ0E1C3Z56ABCD0E11HYX7R",
        "01BJQ0E1C3Z56ABCD0E11HYX8P",
    ]);
    assert_eq!(ulids_to_uuids(&ulids), texts(&[
        "015cae07-0583-f94c-a5b1-a070431f7516",
        "015cae07-0583-f94c-a5b1-a070431f74f8",
        "015cae07-0583-f94c-a5b1-a070431f74d7",
        "015cae07-0583-f94c-a5b1-a070431f74b5",
        "015cae07-0583-f94c-a5b1-a070431f7494",
    ]));
}

#[test]
fn text_that_is_no_ulid_is_passed_over() {
    let ulids = texts(&["nonsense", "01BJQ0E1C3Z56ABCD0E11HYX4M", "", "01BJQ0E1C3Z56ABCD0E11HYX4"]);
    assert_eq!(ulids_to_uuids(&ulids), texts(&["015cae07-0583-f94c-a5b1-a070431f7494"]));
    assert_eq!(ulids_to_uuids(&Vec::new()), Vec::<String>::new());
}

#[test]
fn ulids_are_counted_by_their_day() {
    let ulids = texts(&[
        "00WEGGF0G0J5HEYXS3D7RWZGV8",
        "76EP4G39R8JD1N8AQNYDVJBRCF",
        "018JGR6MQT0000000000000000",
        "01BJQ0E1C3Z56ABCD0E11HYX5N",
    ]);
    // Made on Sunday 2000-12-24, Thursday 9999-09-09, Saturday 2014-03-08
    // and Thursday 2017-06-15.
    let now = 1_700_000_000_000;
    assert_eq!(ulids_weekday(3, &ulids, now), Ok(UlidsWeekdayResult {
        christmas_eve: 1,
        weekday: 2,
        in_the_future: 1,
        lsb_is_1: 2,
    }));
    assert_eq!(ulids_weekday(6, &ulids, 0), Ok(UlidsWeekdayResult {
        christmas_eve: 1,
        weekday: 1,
        in_the_future: 4,
        lsb_is_1: 2,
    }));
    assert_eq!(ulids_weekday(0, &ulids, u64::MAX), Ok(UlidsWeekdayResult {
        christmas_eve: 0 + 1,
        weekday: 0,
        in_the_future: 0,
        lsb_is_1: 2,
    }));
}

#[test]
fn the_present_moment_is_not_the_future() {
    let ulids = texts(&["018JGR6MQT0000000000000000"]);
    assert_eq!(ulids_weekday(5, &ulids, 1394279142138).unwrap().in_the_future, 0);
    assert_eq!(ulids_weekday(5, &ulids, 1394279142137).unwrap().in_the_future, 1);
    assert_eq!(timestamp_ms(0x0144a183_52fa_0000_0000_0000_0000_0000), 1394279142138);
    assert_eq!(timestamp_ms(u128::MAX), 0xffff_ffff_ffff);
}

#[test]
fn bad_weekday_and_bad_ulid_are_refused() {
    let good = texts(&["01BJQ0E1C3Z56ABCD0E11HYX4M"]);
    let bad = texts(&["01BJQ0E1C3Z56ABCD0E11HYX4M", "nonsense"]);
    assert_eq!(ulids_weekday(7, &good, 0), Err(UlidsError::BadWeekday));
    assert_eq!(ulids_weekday(7, &bad, 0), Err(UlidsError::BadWeekday));
    assert_eq!(ulids_weekday(6, &bad, 0), Err(UlidsError::BadUlid));
    assert!(ulids_weekday(6, &good, 0).is_ok());
    assert_eq!(ulids_weekday(0, &Vec::new(), 0), Ok(UlidsWeekdayResult {
        christmas_eve: 0,
        weekday: 0,
        in_the_future: 0,
        lsb_is_1: 0,
    }));
}

#[test]
fn counting_goes_by_the_bits() {
    let christmas_eve_2000: u128 = 977659200000u128 << 80;
    let values = vec![christmas_eve_2000, christmas_eve_2000 | 1, 1];
    assert_eq!(count_ulids(&values, 6, 977659200000 - 1), UlidsWeekdayResult {
        christmas_eve: 2,
        weekday: 2,
        in_the_future: 2,
        lsb_is_1: 2,
    });
    // 1970-01-01 was a Thursday.
    assert_eq!(count_ulids(&values, 3, 0).weekday, 1);
}
