//! The rules of the password game that are written as patterns or rest on
//! a digest, and the two validators built from all of the rules.

use vstd::prelude::*;
use crate::pattern::holds;
use crate::pattern::matches_pattern;
use crate::pattern::regex_is_match;
use crate::password::scan::closed_sum;
use crate::password::scan::contains_sandwich;
use crate::password::scan::contains_unicode_in_range;
use crate::password::scan::has_sandwich;
use crate::password::scan::has_symbol;
use crate::password::scan::integers_sum_to_2023;
use crate::text::byte_len;
use crate::text::chars_of;

verus! {

/// At least three vowels, `y` among them.
pub const THREE_VOWELS: &'static str = r"^(.*[aeiouy]){3,}.*$";

/// A letter that stands twice in a row.
pub const DOUBLE_LETTER: &'static str = r"([a-zA-Z])\1";

/// None of the pairs `ab`, `cd`, `pq`, `xy`.
pub const NO_FORBIDDEN_PAIR: &'static str = r"^(?:(?!ab|cd|pq|xy).)*$";

/// An upper-case letter, a lower-case letter and a digit.
pub const UPPER_LOWER_DIGIT: &'static str = r"^(?=.*[A-Z])(?=.*[a-z])(?=.*\d).+$";

/// At least five digits.
pub const FIVE_DIGITS: &'static str = r"^(.*\d.*){5,}$";

/// The letters `j`, `o` and `y`, in that order, with something between.
pub const JOY_IN_ORDER: &'static str = r"^.*j.+o.+y.*$";

/// An emoji.
pub const EMOJI: &'static str = r"\p{Extended_Pictographic}";

/// The shortest password, in bytes, that the game accepts.
pub const MIN_PASSWORD_LEN: usize = 8;

/// The SHA-256 digest of the bytes of `text`, as 64 hexadecimal digits.
pub uninterp spec fn sha256_hex_of(text: Seq<char>) -> Seq<char>;

/// Computes the SHA-256 digest of `text` with the `crypto` crate:
/// `Sha256::new`, `Digest::input_str`, `Digest::result_str`. Nothing is
/// proved of the digits; the contract only gives them their name.
#[verifier::external_body]
fn sha256_hex(text: &str) -> (hex: String)
    ensures
        hex@ == sha256_hex_of(text@),
{
    let mut hasher = crypto::sha2::Sha256::new();
    crypto::digest::Digest::input_str(&mut hasher, text);
    crypto::digest::Digest::result_str(&mut hasher)
}

/// Whether `text` ends with the letter `a`.
pub open spec fn ends_in_a(text: Seq<char>) -> bool {
    text.len() > 0 && text.last() == 'a'
}

/// Whether a digest, written in hexadecimal, ends with the digit `a`.
pub fn ends_with_a(hex: &str) -> (yes: bool)
    ensures
        yes == ends_in_a(hex@),
{
    let chars = chars_of(hex);
    let n = chars.len();
    n > 0 && chars[n - 1] == 'a'
}

/// Whether `s` holds an upper-case letter, a lower-case letter and a digit.
pub fn contains_upper_lower_digit(s: &str) -> (yes: bool)
    ensures
        yes == matches_pattern(UPPER_LOWER_DIGIT@, s@),
{
    holds(regex_is_match(UPPER_LOWER_DIGIT, s))
}

/// Whether `s` holds at least five digits.
pub fn contains_at_least_five_digits(s: &str) -> (yes: bool)
    ensures
        yes == matches_pattern(FIVE_DIGITS@, s@),
{
    holds(regex_is_match(FIVE_DIGITS, s))
}

/// Whether `s` holds `j`, `o` and `y` in that order.
pub fn contains_j_o_y_in_order(s: &str) -> (yes: bool)
    ensures
        yes == matches_pattern(JOY_IN_ORDER@, s@),
{
    holds(regex_is_match(JOY_IN_ORDER, s))
}

/// Whether `s` holds an emoji.
pub fn contains_emoji(s: &str) -> (yes: bool)
    ensures
        yes == matches_pattern(EMOJI@, s@),
{
    holds(regex_is_match(EMOJI, s))
}

/// Whether the SHA-256 digest of `s`, in hexadecimal, ends with `a`.
pub fn hash_ends_with_a(s: &str) -> (yes: bool)
    ensures
        yes == ends_in_a(sha256_hex_of(s@)),
{
    let hex = sha256_hex(s);
    ends_with_a(hex.as_str())
}

/// The rules of the game, in the order in which they are checked.
#[derive(Clone, Copy, Debug, PartialEq, Eq, Structural)]
pub enum Rule {
    /// At least eight bytes.
    Length,
    /// Upper-case letters, lower-case letters and digits.
    Variety,
    /// At least five digits.
    FiveDigits,
    /// The numbers add up to 2023.
    Sum,
    /// `j`, `o`, `y` in that order.
    Joy,
    /// A letter, another, and the first again.
    Sandwich,
    /// A character between U+2980 and U+2BFF.
    Range,
    /// An emoji.
    Emoji,
    /// A digest that ends with `a`.
    Hash,
}

/// Whether `input` meets `rule`.
pub open spec fn rule_holds(rule: Rule, input: Seq<char>) -> bool {
    match rule {
        Rule::Length => byte_len(input) >= MIN_PASSWORD_LEN,
        Rule::Variety => matches_pattern(UPPER_LOWER_DIGIT@, input),
        Rule::FiveDigits => matches_pattern(FIVE_DIGITS@, input),
        Rule::Sum => closed_sum(input) == 2023,
        Rule::Joy => matches_pattern(JOY_IN_ORDER@, input),
        Rule::Sandwich => has_sandwich(input),
        Rule::Range => has_symbol(input),
        Rule::Emoji => matches_pattern(EMOJI@, input),
        Rule::Hash => ends_in_a(sha256_hex_of(input)),
    }
}

/// Whether `input` meets `rule`.
pub fn check_rule(rule: Rule, input: &str) -> (ok: bool)
    ensures
        ok == rule_holds(rule, input@),
{
    match rule {
        Rule::Length => input.as_bytes().len() >= MIN_PASSWORD_LEN,
        Rule::Variety => contains_upper_lower_digit(input),
        Rule::FiveDigits => contains_at_least_five_digits(input),
        Rule::Sum => integers_sum_to_2023(input),
        Rule::Joy => contains_j_o_y_in_order(input),
        Rule::Sandwich => contains_sandwich(input),
        Rule::Range => contains_unicode_in_range(input),
        Rule::Emoji => contains_emoji(input),
        Rule::Hash => hash_ends_with_a(input),
    }
}

/// The rule that comes after `rule`, if one does.
pub open spec fn rule_after(rule: Rule) -> Option<Rule> {
    match rule {
        Rule::Length => Some(Rule::Variety),
        Rule::Variety => Some(Rule::FiveDigits),
        Rule::FiveDigits => Some(Rule::Sum),
        Rule::Sum => Some(Rule::Joy),
        Rule::Joy => Some(Rule::Sandwich),
        Rule::Sandwich => Some(Rule::Range),
        Rule::Range => Some(Rule::Emoji),
        Rule::Emoji => Some(Rule::Hash),
        Rule::Hash => None,
    }
}

/// How many rules come after `rule`.
pub open spec fn rules_left(rule: Rule) -> nat {
    match rule {
        Rule::Length => 8,
        Rule::Variety => 7,
        Rule::FiveDigits => 6,
        Rule::Sum => 5,
        Rule::Joy => 4,
        Rule::Sandwich => 3,
        Rule::Range => 2,
        Rule::Emoji => 1,
        Rule::Hash => 0,
    }
}

/// The first rule from `rule` on that `input` breaks, if it breaks one.
pub open spec fn first_broken_from(rule: Rule, input: Seq<char>) -> Option<Rule>
    decreases rules_left(rule),
{
    if !rule_holds(rule, input) {
        Some(rule)
    } else {
        match rule_after(rule) {
            Some(next) => first_broken_from(next, input),
            None => None,
        }
    }
}

/// The first rule that `input` breaks, if it breaks one.
pub open spec fn first_broken(input: Seq<char>) -> Option<Rule> {
    first_broken_from(Rule::Length, input)
}

fn next_rule(rule: Rule) -> (next: Option<Rule>)
    ensures
        next == rule_after(rule),
{
    match rule {
        Rule::Length => Some(Rule::Variety),
        Rule::Variety => Some(Rule::FiveDigits),
        Rule::FiveDigits => Some(Rule::Sum),
        Rule::Sum => Some(Rule::Joy),
        Rule::Joy => Some(Rule::Sandwich),
        Rule::Sandwich => Some(Rule::Range),
        Rule::Range => Some(Rule::Emoji),
        Rule::Emoji => Some(Rule::Hash),
        Rule::Hash => None,
    }
}

/// The body of the game's answer.
#[derive(Clone, Copy, Debug)]
pub struct PasswordGameResult {
    pub result: &'static str,
    pub reason: &'static str,
}

/// The game's answer: a status code and a body.
#[derive(Clone, Copy, Debug)]
pub struct GameReply {
    pub status: u16,
    pub body: PasswordGameResult,
}

/// The status code that goes with the first broken rule.
pub open spec fn status_for(broken: Option<Rule>) -> u16 {
    match broken {
        Some(Rule::Length) => 400,
        Some(Rule::Variety) => 400,
        Some(Rule::FiveDigits) => 400,
        Some(Rule::Sum) => 400,
        Some(Rule::Joy) => 406,
        Some(Rule::Sandwich) => 451,
        Some(Rule::Range) => 416,
        Some(Rule::Emoji) => 426,
        Some(Rule::Hash) => 418,
        None => 200,
    }
}

/// The reason that goes with the first broken rule.
pub open spec fn reason_for(broken: Option<Rule>) -> Seq<char> {
    match broken {
        Some(Rule::Length) => "8 chars"@,
        Some(Rule::Variety) => "more types of chars"@,
        Some(Rule::FiveDigits) => "55555"@,
        Some(Rule::Sum) => "math is hard"@,
        Some(Rule::Joy) => "not joyful enough"@,
        Some(Rule::Sandwich) => "illegal: no sandwich"@,
        Some(Rule::Range) => "outranged"@,
        Some(Rule::Emoji) => "😳"@,
        Some(Rule::Hash) => "not a coffee brewer"@,
        None => "that's a nice password"@,
    }
}

/// The word that goes with the first broken rule.
pub open spec fn result_for(broken: Option<Rule>) -> Seq<char> {
    if broken is None {
        "nice"@
    } else {
        "naughty"@
    }
}

/// Whether `reply` is the game's answer to a password whose first broken
/// rule is `broken`.
pub open spec fn answers(reply: GameReply, broken: Option<Rule>) -> bool {
    &&& reply.status == status_for(broken)
    &&& reply.body.result@ == result_for(broken)
    &&& reply.body.reason@ == reason_for(broken)
}

/// The game's answer to a password whose first broken rule is `broken`.
pub fn reply_for(broken: Option<Rule>) -> (reply: GameReply)
    ensures
        answers(reply, broken),
{
    let (status, reason): (u16, &'static str) = match broken {
        Some(Rule::Length) => (400, "8 chars"),
        Some(Rule::Variety) => (400, "more types of chars"),
        Some(Rule::FiveDigits) => (400, "55555"),
        Some(Rule::Sum) => (400, "math is hard"),
        Some(Rule::Joy) => (406, "not joyful enough"),
        Some(Rule::Sandwich) => (451, "illegal: no sandwich"),
        Some(Rule::Range) => (416, "outranged"),
        Some(Rule::Emoji) => (426, "😳"),
        Some(Rule::Hash) => (418, "not a coffee brewer"),
        None => (200, "that's a nice password"),
    };
    let result: &'static str = if broken.is_none() {
        "nice"
    } else {
        "naughty"
    };
    GameReply { status, body: PasswordGameResult { result, reason } }
}

/// Plays the game on `input`: checks the rules in order and answers with
/// the first that is broken, or with praise if none is.
pub fn game_validator(input: &str) -> (reply: GameReply)
    ensures
        answers(reply, first_broken(input@)),
{
    let mut rule = Rule::Length;
    loop
        invariant
            first_broken(input@) == first_broken_from(rule, input@),
        decreases rules_left(rule),
    {
        if !check_rule(rule, input) {
            return reply_for(Some(rule));
        }
        match next_rule(rule) {
            Some(next) => {
                rule = next;
            },
            None => {
                return reply_for(None);
            },
        }
    }
}

/// Whether a string is nice: three vowels, a doubled letter, and none of
/// the forbidden pairs.
pub open spec fn is_nice(input: Seq<char>) -> bool {
    &&& matches_pattern(THREE_VOWELS@, input)
    &&& matches_pattern(DOUBLE_LETTER@, input)
    &&& matches_pattern(NO_FORBIDDEN_PAIR@, input)
}

/// The answer of the older test: a status code and one word.
#[derive(Clone, Copy, Debug)]
pub struct NiceReply {
    pub status: u16,
    pub result: &'static str,
}

/// The answer of the older test, from the verdicts on its three patterns.
pub fn nice_reply(vowels: Option<bool>, double: Option<bool>, clean: Option<bool>) -> (reply:
    NiceReply)
    ensures
        reply.status == if vowels == Some(true) && double == Some(true) && clean == Some(true) {
            200u16
        } else {
            400u16
        },
        reply.result@ == if vowels == Some(true) && double == Some(true) && clean == Some(true) {
            "nice"@
        } else {
            "naughty"@
        },
{
    if holds(vowels) && holds(double) && holds(clean) {
        NiceReply { status: 200, result: "nice" }
    } else {
        NiceReply { status: 400, result: "naughty" }
    }
}

/// Tells a nice string from a naughty one.
pub fn nice_validator(input: &str) -> (reply: NiceReply)
    ensures
        reply.status == if is_nice(input@) {
            200u16
        } else {
            400u16
        },
        reply.result@ == if is_nice(input@) {
            "nice"@
        } else {
            "naughty"@
        },
{
    let vowels = regex_is_match(THREE_VOWELS, input);
    let double = regex_is_match(DOUBLE_LETTER, input);
    let clean = regex_is_match(NO_FORBIDDEN_PAIR, input);
    nice_reply(vowels, double, clean)
}

} // verus!
