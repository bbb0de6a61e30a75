use cch23_challenge::gifts::integers;
use cch23_challenge::gifts::odd_one_out;
use cch23_challenge::gifts::read_numbers;

#[test]
fn day22_integers() {
    assert_eq!(integers("888\n77\n888\n22\n77"), 22);
    let expected = "🎁".repeat(22);
    assert_eq!("🎁".repeat(integers("888\n77\n888\n22\n77")), expected);
}

#[test]
fn every_number_has_a_partner() {
    assert_eq!(integers("1\n2\n2\n1\n"), 0);
    assert_eq!(integers(""), 0);
    assert_eq!(odd_one_out(&vec![]), 0);
}

#[test]
fn the_first_of_several_is_taken() {
    assert_eq!(odd_one_out(&vec![5, 9, 5, 9, 9, 3, 7]), 9);
    assert_eq!(odd_one_out(&vec![3, 3, 3]), 3);
    assert_eq!(odd_one_out(&vec![4, 6, 4]), 6);
}

#[test]
fn lines_are_trimmed_and_bad_lines_passed_over() {
    assert_eq!(read_numbers("  12 \r\n\t7\nseven\n\n+3\n-3\n1 2\n99"), vec![12, 7, 3, 99]);
    assert_eq!(read_numbers("18446744073709551615\n18446744073709551616\n"), vec![usize::MAX]);
    assert_eq!(read_numbers("\u{3000}5\u{a0}\n"), vec![5]);
    assert_eq!(read_numbers("5\r"), vec![5]);
}
