//! Identifiers that sort by time: turning them into UUIDs, and counting
//! them by the day on which they were made.

use vstd::prelude::*;

verus! {

/// The 128 bits that a ULID writes in Crockford's base 32, if `text` is
/// one.
pub uninterp spec fn ulid_value_of(text: Seq<char>) -> Option<u128>;

/// The 128 bits written the way of a UUID: hexadecimal digits in five
/// groups with hyphens between.
pub uninterp spec fn uuid_text_of(value: u128) -> Seq<char>;

/// The day of the month, in UTC, on which the ULID with these bits was
/// made.
pub uninterp spec fn day_of(value: u128) -> u32;

/// The month, in UTC, in which the ULID with these bits was made.
pub uninterp spec fn month_of(value: u128) -> u32;

/// The day of the week, in UTC, on which the ULID with these bits was made,
/// counted from Monday as zero.
pub uninterp spec fn weekday_of(value: u128) -> u32;

/// Decodes a ULID with the `ulid` crate: `Ulid::from_string`, of which the
/// 128 bits are handed on. A text that is no ULID gives nothing.
#[verifier::external_body]
fn ulid_value(text: &str) -> (value: Option<u128>)
    ensures
        value == ulid_value_of(text@),
{
    match ulid::Ulid::from_string(text) {
        Ok(id) => Some(id.0),
        Err(_) => None,
    }
}

/// Writes 128 bits as a UUID with the `uuid` crate: `Uuid::from_u128`,
/// then its `Display`.
#[verifier::external_body]
fn uuid_text(value: u128) -> (text: String)
    ensures
        text@ == uuid_text_of(value),
{
    uuid::Uuid::from_u128(value).to_string()
}

/// The day of the month of a ULID's time stamp: `Ulid::datetime`, turned
/// into a `chrono::DateTime<Utc>`, of which `Datelike::day` is taken.
#[verifier::external_body]
fn day(value: u128) -> (day: u32)
    ensures
        day == day_of(value),
{
    let made: chrono::DateTime<chrono::Utc> = ulid::Ulid(value).datetime().into();
    chrono::Datelike::day(&made)
}

/// The month of a ULID's time stamp: `Ulid::datetime`, turned into a
/// `chrono::DateTime<Utc>`, of which `Datelike::month` is taken.
#[verifier::external_body]
fn month(value: u128) -> (month: u32)
    ensures
        month == month_of(value),
{
    let made: chrono::DateTime<chrono::Utc> = ulid::Ulid(value).datetime().into();
    chrono::Datelike::month(&made)
}

/// The day of the week of a ULID's time stamp: `Ulid::datetime`, turned
/// into a `chrono::DateTime<Utc>`, of which `Datelike::weekday` is taken
/// and counted from Monday.
#[verifier::external_body]
fn weekday(value: u128) -> (weekday: u32)
    ensures
        weekday == weekday_of(value),
{
    let made: chrono::DateTime<chrono::Utc> = ulid::Ulid(value).datetime().into();
    chrono::Datelike::weekday(&made).num_days_from_monday()
}

/// The time stamp of a ULID, in milliseconds since 1970: its upper 48
/// bits.
pub open spec fn timestamp_of(value: u128) -> u64 {
    (value >> 80) as u64
}

/// The time stamp of a ULID, in milliseconds since 1970.
pub fn timestamp_ms(value: u128) -> (stamp: u64)
    ensures
        stamp == timestamp_of(value),
{
    assert(value >> 80 <= 0xffff_ffff_ffff) by (bit_vector);
    (value >> 80) as u64
}

/// Whether the lowest bit of a ULID is set.
pub open spec fn is_odd(value: u128) -> bool {
    value & 1 == 1
}

/// The UUIDs of the ULIDs among `texts`, the last first. A text that is no
/// ULID is passed over.
pub open spec fn uuids_of(texts: Seq<String>) -> Seq<Seq<char>>
    decreases texts.len(),
{
    if texts.len() == 0 {
        Seq::empty()
    } else {
        match ulid_value_of(texts.first()@) {
            Some(value) => uuids_of(texts.drop_first()).push(uuid_text_of(value)),
            None => uuids_of(texts.drop_first()),
        }
    }
}

/// The texts of a row of strings.
pub open spec fn texts_of(strings: Seq<String>) -> Seq<Seq<char>> {
    Seq::new(strings.len(), |i: int| strings[i]@)
}

/// Turns ULIDs into UUIDs, in reverse order. A text that is no ULID is
/// passed over.
pub fn ulids_to_uuids(ulids: &Vec<String>) -> (uuids: Vec<String>)
    ensures
        texts_of(uuids@) == uuids_of(ulids@),
{
    let mut uuids: Vec<String> = Vec::new();
    let n = ulids.len();
    let mut i: usize = n;
    assert(ulids@.skip(n as int) =~= Seq::empty());
    assert(texts_of(uuids@) =~= Seq::empty());
    while i > 0
        invariant
            i <= n,
            n == ulids@.len(),
            texts_of(uuids@) == uuids_of(ulids@.skip(i as int)),
        decreases i,
    {
        i -= 1;
        proof {
            assert(ulids@.skip(i as int).drop_first() =~= ulids@.skip(i + 1));
            assert(ulids@.skip(i as int).first() == ulids@[i as int]);
        }
        let ghost before = uuids@;
        match ulid_value(ulids[i].as_str()) {
            Some(value) => {
                uuids.push(uuid_text(value));
                assert(texts_of(uuids@) =~= texts_of(before).push(uuid_text_of(value)));
            },
            None => {},
        }
    }
    assert(ulids@.skip(0) =~= ulids@);
    uuids
}

/// How many ULIDs fall on Christmas Eve, on a given day of the week, in
/// the future, and how many have their lowest bit set.
#[derive(Clone, Copy, Debug, PartialEq, Eq, Structural)]
pub struct UlidsWeekdayResult {
    pub christmas_eve: usize,
    pub weekday: usize,
    pub in_the_future: usize,
    pub lsb_is_1: usize,
}

/// Why ULIDs are not counted.
#[derive(Clone, Copy, Debug, PartialEq, Eq, Structural)]
pub enum UlidsError {
    /// The day of the week is not one of `0..=6`.
    BadWeekday,
    /// One of the texts is no ULID.
    BadUlid,
}

/// Whether a ULID was made on the 24th of December.
pub open spec fn on_christmas_eve(value: u128) -> bool {
    day_of(value) == 24 && month_of(value) == 12
}

/// Whether a ULID was made after `now_ms`, in milliseconds since 1970.
pub open spec fn in_future(value: u128, now_ms: u64) -> bool {
    timestamp_of(value) > now_ms
}

/// How many of `values` fall on Christmas Eve.
pub open spec fn count_christmas_eve(values: Seq<u128>) -> nat
    decreases values.len(),
{
    if values.len() == 0 {
        0
    } else {
        count_christmas_eve(values.drop_last()) + if on_christmas_eve(values.last()) {
            1nat
        } else {
            0nat
        }
    }
}

/// How many of `values` fall on the day of the week `weekday`, counted
/// from Monday as zero.
pub open spec fn count_weekday(values: Seq<u128>, weekday: u8) -> nat
    decreases values.len(),
{
    if values.len() == 0 {
        0
    } else {
        count_weekday(values.drop_last(), weekday) + if weekday_of(values.last()) == weekday {
            1nat
        } else {
            0nat
        }
    }
}

/// How many of `values` were made after `now_ms`.
pub open spec fn count_future(values: Seq<u128>, now_ms: u64) -> nat
    decreases values.len(),
{
    if values.len() == 0 {
        0
    } else {
        count_future(values.drop_last(), now_ms) + if in_future(values.last(), now_ms) {
            1nat
        } else {
            0nat
        }
    }
}

/// How many of `values` have their lowest bit set.
pub open spec fn count_odd(values: Seq<u128>) -> nat
    decreases values.len(),
{
    if values.len() == 0 {
        0
    } else {
        count_odd(values.drop_last()) + if is_odd(values.last()) {
            1nat
        } else {
            0nat
        }
    }
}

/// Whether `counts` are the counts of `values`.
pub open spec fn counts_of(
    values: Seq<u128>,
    weekday: u8,
    now_ms: u64,
    counts: UlidsWeekdayResult,
) -> bool {
    &&& counts.christmas_eve == count_christmas_eve(values)
    &&& counts.weekday == count_weekday(values, weekday)
    &&& counts.in_the_future == count_future(values, now_ms)
    &&& counts.lsb_is_1 == count_odd(values)
}

/// Counts ULIDs, given by their bits.
pub fn count_ulids(values: &Vec<u128>, weekday_number: u8, now_ms: u64) -> (counts:
    UlidsWeekdayResult)
    ensures
        counts_of(values@, weekday_number, now_ms, counts),
{
    let mut counts = UlidsWeekdayResult {
        christmas_eve: 0,
        weekday: 0,
        in_the_future: 0,
        lsb_is_1: 0,
    };
    let n = values.len();
    let mut i: usize = 0;
    assert(values@.take(0) =~= Seq::empty());
    while i < n
        invariant
            i <= n,
            n == values@.len(),
            counts_of(values@.take(i as int), weekday_number, now_ms, counts),
            counts.christmas_eve <= i,
            counts.weekday <= i,
            counts.in_the_future <= i,
            counts.lsb_is_1 <= i,
        decreases n - i,
    {
        let value = values[i];
        proof {
            assert(values@.take(i + 1).drop_last() =~= values@.take(i as int));
            assert(values@.take(i + 1).last() == value);
        }
        if day(value) == 24 && month(value) == 12 {
            counts.christmas_eve = counts.christmas_eve + 1;
        }
        if weekday(value) == weekday_number as u32 {
            counts.weekday = counts.weekday + 1;
        }
        if timestamp_ms(value) > now_ms {
            counts.in_the_future = counts.in_the_future + 1;
        }
        if value & 1 == 1 {
            counts.lsb_is_1 = counts.lsb_is_1 + 1;
        }
        i += 1;
    }
    assert(values@.take(n as int) =~= values@);
    counts
}

/// Whether every text is a ULID.
pub open spec fn all_ulids(texts: Seq<String>) -> bool {
    forall|i: int| 0 <= i < texts.len() ==> ulid_value_of((#[trigger] texts[i])@) is Some
}

/// The bits of the ULIDs of `texts`, in order.
pub open spec fn values_of(texts: Seq<String>) -> Seq<u128> {
    Seq::new(texts.len(), |i: int| ulid_value_of(texts[i]@)->0)
}

/// Counts the ULIDs that fall on Christmas Eve, on the day of the week
/// `weekday` (Monday is zero), after `now_ms`, and those with their lowest
/// bit set. A day of the week beyond six is refused, and so is a row with
/// a text that is no ULID.
pub fn ulids_weekday(weekday_number: u8, ulids: &Vec<String>, now_ms: u64) -> (counts: Result<
    UlidsWeekdayResult,
    UlidsError,
>)
    ensures
        match counts {
            Ok(found) => weekday_number <= 6 && all_ulids(ulids@) && counts_of(
                values_of(ulids@),
                weekday_number,
                now_ms,
                found,
            ),
            Err(UlidsError::BadWeekday) => weekday_number > 6,
            Err(UlidsError::BadUlid) => weekday_number <= 6 && !all_ulids(ulids@),
        },
{
    if weekday_number > 6 {
        return Err(UlidsError::BadWeekday);
    }
    let mut values: Vec<u128> = Vec::new();
    let n = ulids.len();
    let mut i: usize = 0;
    while i < n
        invariant
            i <= n,
            n == ulids@.len(),
            weekday_number <= 6,
            values@.len() == i,
            forall|j: int|
                0 <= j < i ==> ulid_value_of((#[trigger] ulids@[j])@) == Some(values@[j]),
        decreases n - i,
    {
        match ulid_value(ulids[i].as_str()) {
            Some(value) => {
                values.push(value);
            },
            None => {
                assert(ulid_value_of(ulids@[i as int]@) is None);
                return Err(UlidsError::BadUlid);
            },
        }
        i += 1;
    }
    assert(values@ =~= values_of(ulids@));
    Ok(count_ulids(&values, weekday_number, now_ms))
}

} // verus!
