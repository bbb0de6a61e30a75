use cch23_challenge::text::chars_of;
use cch23_challenge::text::lines_of;
use cch23_challenge::text::parse_i32;
use cch23_challenge::text::parse_unsigned;
use cch23_challenge::text::same_text;
use cch23_challenge::text::split_on;
use cch23_challenge::text::text_of;
use cch23_challenge::text::trim;

fn chars(text: &str) -> Vec<char> {
    text.chars().collect()
}

fn strings(rows: Vec<Vec<char>>) -> Vec<String> {
    rows.into_iter().map(|row| row.into_iter().collect()).collect()
}

#[test]
fn split_gives_one_piece_more_than_separators() {
    for text in ["", "a", "a/b", "/a/", "//", "a//b/", "é/ü"] {
        let expected: Vec<String> = text.split('/').map(|p| p.to_string()).collect();
        assert_eq!(strings(split_on(&chars(text), '/')), expected);
    }
}

#[test]
fn lines_end_with_a_line_feed_or_not_at_all() {
    for text in ["", "a", "a\n", "a\nb", "a\r\nb\r\n", "a\r", "a\r\n\r\n", "\n", "\n\n", "\r\n", "a\n\r", "a\r\r\n"] {
        let expected: Vec<String> = text.lines().map(|p| p.to_string()).collect();
        assert_eq!(strings(lines_of(&chars(text))), expected);
    }
}

#[test]
fn trim_takes_white_space_from_both_ends() {
    for text in ["", " ", "a", " a ", "\t a b\r\n", "\u{3000}x\u{a0}", "\u{200b}x", " \u{85} ", "x\u{1680}"] {
        let trimmed: String = trim(&chars(text)).into_iter().collect();
        assert_eq!(trimmed, text.trim());
    }
}

#[test]
fn numbers_are_read_as_std_reads_them() {
    for text in ["0", "+0", "-0", "007", "2147483647", "2147483648", "-2147483648", "-2147483649", "", "+", "-", "--1", "1 ", " 1", "1_0", "٣", "99999999999999999999"] {
        assert_eq!(parse_i32(&chars(text)), text.parse::<i32>().ok());
        assert_eq!(parse_unsigned(&chars(text), u64::MAX), text.parse::<u64>().ok());
        assert_eq!(parse_unsigned(&chars(text), u32::MAX as u64), text.parse::<u32>().ok().map(|n| n as u64));
    }
    assert_eq!(parse_unsigned(&chars("18446744073709551615"), u64::MAX), Some(u64::MAX));
    assert_eq!(parse_unsigned(&chars("18446744073709551616"), u64::MAX), None);
    assert_eq!(parse_unsigned(&chars("5"), 4), None);
}

#[test]
fn texts_are_compared_and_copied() {
    assert!(same_text("serve", "serve"));
    assert!(!same_text("serve", "server"));
    assert!(!same_text("é", "e"));
    assert!(same_text("", ""));
    assert_eq!(chars_of("aé🎁"), vec!['a', 'é', '🎁']);
    assert_eq!(text_of(&chars("aé🎁b"), 1, 3), "é🎁");
    assert_eq!(text_of(&chars("abc"), 3, 3), "");
}
