use cch23_challenge::password::rules::check_rule;
use cch23_challenge::password::rules::contains_at_least_five_digits;
use cch23_challenge::password::rules::contains_emoji;
use cch23_challenge::password::rules::contains_j_o_y_in_order;
use cch23_challenge::password::rules::contains_upper_lower_digit;
use cch23_challenge::password::rules::ends_with_a;
use cch23_challenge::password::rules::game_validator;
use cch23_challenge::password::rules::hash_ends_with_a;
use cch23_challenge::pattern::holds;
use cch23_challenge::password::rules::nice_reply;
use cch23_challenge::password::rules::nice_validator;
use cch23_challenge::password::rules::reply_for;
use cch23_challenge::password::rules::Rule;
use cch23_challenge::password::scan::contains_sandwich;
use cch23_challenge::password::scan::contains_unicode_in_range;
use cch23_challenge::password::scan::integers_sum_to_2023;

#[test]
fn sum_of_numbers_closed_by_another_character() {
    assert!(integers_sum_to_2023("2000.23."));
    assert!(integers_sum_to_2023("a2023b"));
    assert!(integers_sum_to_2023("1000x1000y20z3!"));
    assert!(!integers_sum_to_2023("2000.24."));
    assert!(!integers_sum_to_2023(""));
    assert!(!integers_sum_to_2023("abc"));
}

#[test]
fn digits_at_the_end_are_not_counted() {
    assert!(!integers_sum_to_2023("2023"));
    assert!(!integers_sum_to_2023("2000.23"));
    assert!(integers_sum_to_2023("2023.5"));
    assert!(integers_sum_to_2023("2023x99999"));
}

#[test]
fn number_beyond_32_bits_counts_for_nothing() {
    assert!(integers_sum_to_2023("4294967296.2023."));
    assert!(integers_sum_to_2023("99999999999999999999999999.2023."));
    assert!(!integers_sum_to_2023("4294967295.2023."));
    assert!(integers_sum_to_2023("0000000000000000000002023."));
}

#[test]
fn sum_does_not_wrap() {
    assert!(!integers_sum_to_2023("4294967295.2024."));
    assert!(!integers_sum_to_2023("4294967295.4294967295.4294967295."));
}

#[test]
fn only_ascii_digits_are_digits() {
    assert!(integers_sum_to_2023("2023٣x"));
    assert!(integers_sum_to_2023("20٣x2003é"));
    assert!(!integers_sum_to_2023("20٣23x2003é"));
}

#[test]
fn sandwich_needs_three_letters() {
    assert!(contains_sandwich("xyx"));
    assert!(contains_sandwich("..aba.."));
    assert!(contains_sandwich("AbA"));
    assert!(contains_sandwich("aaa"));
    assert!(!contains_sandwich("abc"));
    assert!(!contains_sandwich("a1a"));
    assert!(!contains_sandwich("1a1"));
    assert!(!contains_sandwich("aBA"));
    assert!(!contains_sandwich("ab"));
    assert!(!contains_sandwich(""));
    assert!(!contains_sandwich("éaé"));
}

#[test]
fn symbol_range_has_both_ends() {
    assert!(contains_unicode_in_range("\u{2980}"));
    assert!(contains_unicode_in_range("\u{2BFF}"));
    assert!(contains_unicode_in_range("abc\u{2A00}def"));
    assert!(!contains_unicode_in_range("\u{297F}"));
    assert!(!contains_unicode_in_range("\u{2C00}"));
    assert!(!contains_unicode_in_range("plain"));
    assert!(!contains_unicode_in_range(""));
}

#[test]
fn pattern_rules() {
    assert!(contains_upper_lower_digit("aB3"));
    assert!(!contains_upper_lower_digit("ab3"));
    assert!(!contains_upper_lower_digit("AB3"));
    assert!(!contains_upper_lower_digit("aBc"));
    assert!(contains_at_least_five_digits("a1b2c3d4e5"));
    assert!(!contains_at_least_five_digits("a1b2c3d4e"));
    assert!(contains_j_o_y_in_order("j-o-y"));
    assert!(!contains_j_o_y_in_order("joy"));
    assert!(!contains_j_o_y_in_order("y-o-j"));
    assert!(contains_emoji("hi 🎁"));
    assert!(!contains_emoji("hi"));
}

#[test]
fn digest_rule() {
    assert!(ends_with_a("0123a"));
    assert!(!ends_with_a("0123b"));
    assert!(!ends_with_a(""));
    assert!(!ends_with_a("a0"));
    // SHA-256 of "a" ends in ...48bb, of "4" in ...8a, of "15" in ...8bdb.
    assert!(!hash_ends_with_a("a"));
    assert!(hash_ends_with_a("4"));
    assert!(!hash_ends_with_a("15"));
    let mut ending_in_a = Vec::new();
    for n in 0..64 {
        if hash_ends_with_a(&n.to_string()) {
            ending_in_a.push(n);
        }
    }
    assert_eq!(ending_in_a, vec![4, 18, 26, 28, 43, 51, 62]);
}

#[test]
fn verdict_counts_only_a_plain_yes() {
    assert!(holds(Some(true)));
    assert!(!holds(Some(false)));
    assert!(!holds(None));
}

#[test]
fn game_answers_with_the_first_broken_rule() {
    let reply = game_validator("short");
    assert_eq!((reply.status, reply.body.result, reply.body.reason), (400, "naughty", "8 chars"));
    let reply = game_validator("password");
    assert_eq!(
        (reply.status, reply.body.result, reply.body.reason),
        (400, "naughty", "more types of chars")
    );
    let reply = game_validator("Password123");
    assert_eq!((reply.status, reply.body.result, reply.body.reason), (400, "naughty", "55555"));
    let reply = game_validator("Password12345");
    assert_eq!(
        (reply.status, reply.body.result, reply.body.reason),
        (400, "naughty", "math is hard")
    );
    let reply = game_validator("2000.23.A yoj");
    assert_eq!(
        (reply.status, reply.body.result, reply.body.reason),
        (406, "naughty", "not joyful enough")
    );
    let reply = game_validator("2000.23.A j-o-y");
    assert_eq!(
        (reply.status, reply.body.result, reply.body.reason),
        (451, "naughty", "illegal: no sandwich")
    );
    let reply = game_validator("2000.23.A j-o-y aba");
    assert_eq!(
        (reply.status, reply.body.result, reply.body.reason),
        (416, "naughty", "outranged")
    );
    let reply = game_validator("2000.23.A j-o-y aba \u{2980}");
    assert_eq!((reply.status, reply.body.result, reply.body.reason), (426, "naughty", "😳"));
}

#[test]
fn game_ends_on_the_digest() {
    let base = "2000.23.A j-o-y aba \u{2980} 🎁 ";
    for n in 0..40usize {
        let candidate = format!("{}{}", base, "x".repeat(n));
        let reply = game_validator(&candidate);
        // Of these forty, the digests of the ones with 14, 22 and 35 more
        // letters end in `a`.
        if n == 14 || n == 22 || n == 35 {
            assert_eq!(
                (reply.status, reply.body.result, reply.body.reason),
                (200, "nice", "that's a nice password")
            );
        } else {
            assert_eq!(
                (reply.status, reply.body.result, reply.body.reason),
                (418, "naughty", "not a coffee brewer")
            );
        }
    }
}

#[test]
fn length_rule_counts_bytes() {
    assert!(check_rule(Rule::Length, "12345678"));
    assert!(!check_rule(Rule::Length, "1234567"));
    assert!(check_rule(Rule::Length, "éééé"));
    assert!(!check_rule(Rule::Length, "ééé"));
}

#[test]
fn every_rule_has_its_answer() {
    let table = [
        (Some(Rule::Length), 400, "naughty", "8 chars"),
        (Some(Rule::Variety), 400, "naughty", "more types of chars"),
        (Some(Rule::FiveDigits), 400, "naughty", "55555"),
        (Some(Rule::Sum), 400, "naughty", "math is hard"),
        (Some(Rule::Joy), 406, "naughty", "not joyful enough"),
        (Some(Rule::Sandwich), 451, "naughty", "illegal: no sandwich"),
        (Some(Rule::Range), 416, "naughty", "outranged"),
        (Some(Rule::Emoji), 426, "naughty", "😳"),
        (Some(Rule::Hash), 418, "naughty", "not a coffee brewer"),
        (None, 200, "nice", "that's a nice password"),
    ];
    for (broken, status, result, reason) in table {
        let reply = reply_for(broken);
        assert_eq!((reply.status, reply.body.result, reply.body.reason), (status, result, reason));
    }
}

#[test]
fn nice_and_naughty_strings() {
    let reply = nice_validator("hello there");
    assert_eq!((reply.status, reply.result), (200, "nice"));
    let reply = nice_validator("abcd");
    assert_eq!((reply.status, reply.result), (400, "naughty"));
    let reply = nice_validator("he77o there");
    assert_eq!((reply.status, reply.result), (400, "naughty"));
    let reply = nice_validator("hello");
    assert_eq!((reply.status, reply.result), (400, "naughty"));
    let reply = nice_validator("hello xylophones");
    assert_eq!((reply.status, reply.result), (400, "naughty"));
    let reply = nice_validator("password");
    assert_eq!((reply.status, reply.result), (400, "naughty"));
}

#[test]
fn nice_needs_three_plain_matches() {
    let reply = nice_reply(Some(true), Some(true), Some(true));
    assert_eq!((reply.status, reply.result), (200, "nice"));
    let reply = nice_reply(Some(true), Some(false), Some(true));
    assert_eq!((reply.status, reply.result), (400, "naughty"));
    let reply = nice_reply(Some(true), Some(true), None);
    assert_eq!((reply.status, reply.result), (400, "naughty"));
    let reply = nice_reply(None, Some(true), Some(true));
    assert_eq!((reply.status, reply.result), (400, "naughty"));
}
