//! Helpers on strings that the rest of the library shares: comparing,
//! splitting into pieces and lines, and reading numbers.

use vstd::prelude::*;

verus! {

/// The number of bytes that `text` takes in UTF-8.
pub open spec fn byte_len(text: Seq<char>) -> nat {
    vstd::utf8::encode_utf8(text).len()
}

/// Whether `c` is one of the ten ASCII digits.
pub open spec fn is_digit(c: char) -> bool {
    '0' <= c && c <= '9'
}

/// The digit that `c` writes.
pub open spec fn digit_value(c: char) -> nat {
    (c as nat - '0' as nat) as nat
}

/// The number that a row of digits writes in base ten.
pub open spec fn decimal(digits: Seq<char>) -> nat
    decreases digits.len(),
{
    if digits.len() == 0 {
        0
    } else {
        decimal(digits.drop_last()) * 10 + digit_value(digits.last())
    }
}

/// Whether `text` is made of ASCII digits only.
pub open spec fn all_digits(text: Seq<char>) -> bool {
    forall|i: int| 0 <= i < text.len() ==> is_digit(#[trigger] text[i])
}

/// The text without a sign at its front.
pub open spec fn unsigned_part(text: Seq<char>, minus: bool) -> Seq<char> {
    if text.len() > 0 && (text[0] == '+' || (minus && text[0] == '-')) {
        text.drop_first()
    } else {
        text
    }
}

/// The number that `text` writes, if it is one of `0..=max`: a row of
/// digits, with `+` before it or not. Anything else writes no number.
pub open spec fn unsigned_of(text: Seq<char>, max: nat) -> Option<nat> {
    let digits = unsigned_part(text, false);
    if digits.len() > 0 && all_digits(digits) && decimal(digits) <= max {
        Some(decimal(digits))
    } else {
        None
    }
}

/// The number that `text` writes, if it is one of `min..=max`: a row of
/// digits, with `+` or `-` before it or not.
pub open spec fn signed_of(text: Seq<char>, min: int, max: int) -> Option<int> {
    let digits = unsigned_part(text, true);
    let value = if text.len() > 0 && text[0] == '-' {
        -(decimal(digits) as int)
    } else {
        decimal(digits) as int
    };
    if digits.len() > 0 && all_digits(digits) && min <= value <= max {
        Some(value)
    } else {
        None
    }
}

/// The pieces of `text` between the occurrences of `sep`. There is always
/// one piece more than there are separators.
pub open spec fn split(text: Seq<char>, sep: char) -> Seq<Seq<char>>
    decreases text.len(),
{
    if text.len() == 0 {
        seq![Seq::empty()]
    } else if text.last() == sep {
        split(text.drop_last(), sep).push(Seq::empty())
    } else {
        let before = split(text.drop_last(), sep);
        before.update(before.len() - 1, before.last().push(text.last()))
    }
}

/// A line without the carriage return that ends it, if one does.
pub open spec fn without_cr(line: Seq<char>) -> Seq<char> {
    if line.len() > 0 && line.last() == '\r' {
        line.drop_last()
    } else {
        line
    }
}

/// The lines of `text`. A line ends with a line feed, or with a carriage
/// return and a line feed; the last line need not end at all, and then it
/// keeps a carriage return at its end.
pub open spec fn lines(text: Seq<char>) -> Seq<Seq<char>> {
    let pieces = split(text, '\n');
    let ended = Seq::new((pieces.len() - 1) as nat, |i: int| without_cr(pieces[i]));
    if pieces.last().len() == 0 {
        ended
    } else {
        ended.push(pieces.last())
    }
}

/// Whether `c` is white space.
pub open spec fn is_space(c: char) -> bool {
    ||| '\u{9}' <= c && c <= '\u{D}'
    ||| c == ' '
    ||| c == '\u{85}'
    ||| c == '\u{A0}'
    ||| c == '\u{1680}'
    ||| '\u{2000}' <= c && c <= '\u{200A}'
    ||| c == '\u{2028}'
    ||| c == '\u{2029}'
    ||| c == '\u{202F}'
    ||| c == '\u{205F}'
    ||| c == '\u{3000}'
}

/// Whether `inner` is `text` without the white space at its two ends.
pub open spec fn is_trimmed(text: Seq<char>, from: int, to: int) -> bool {
    &&& 0 <= from <= to <= text.len()
    &&& forall|i: int| 0 <= i < from ==> is_space(#[trigger] text[i])
    &&& forall|i: int| to <= i < text.len() ==> is_space(#[trigger] text[i])
    &&& from < to ==> !is_space(text[from]) && !is_space(text[to - 1])
    &&& from == to ==> from == text.len()
}

/// `text` without the white space at its two ends.
pub open spec fn trimmed(text: Seq<char>) -> Seq<char> {
    let (from, to) = choose|from: int, to: int| is_trimmed(text, from, to);
    text.subrange(from, to)
}

/// There is one way only to trim a text.
pub proof fn trim_is_unique(text: Seq<char>, from: int, to: int)
    requires
        is_trimmed(text, from, to),
    ensures
        trimmed(text) == text.subrange(from, to),
{
    let (a, b) = choose|a: int, b: int| is_trimmed(text, a, b);
    assert(is_trimmed(text, a, b));
    if from < to {
        assert(a < b) by {
            if a == b {
                assert(is_space(text[from]));
            }
        }
        assert(a == from) by {
            if a < from {
                assert(is_space(text[a]));
            }
            if from < a {
                assert(is_space(text[from]));
            }
        }
        assert(b == to) by {
            if b < to {
                assert(is_space(text[to - 1]));
            }
            if to < b {
                assert(is_space(text[b - 1]));
            }
        }
    } else {
        if a < b {
            assert(is_space(text[a]));
        }
        assert(text.subrange(a, b) =~= text.subrange(from, to));
    }
}

/// A text has at least one piece.
pub proof fn split_has_pieces(text: Seq<char>, sep: char)
    ensures
        split(text, sep).len() >= 1,
    decreases text.len(),
{
    if text.len() > 0 {
        split_has_pieces(text.drop_last(), sep);
    }
}

/// A row of digits writes no less than any of its beginnings.
pub proof fn decimal_grows(digits: Seq<char>, k: int)
    requires
        0 <= k <= digits.len(),
    ensures
        decimal(digits.take(k)) <= decimal(digits),
    decreases digits.len() - k,
{
    if k < digits.len() {
        decimal_grows(digits, k + 1);
        assert(digits.take(k + 1).drop_last() =~= digits.take(k));
    } else {
        assert(digits.take(k) =~= digits);
    }
}

/// `String::push` of std puts the character at the end of the string.
pub assume_specification[ String::push ](text: &mut String, ch: char)
    ensures
        final(text)@ == old(text)@.push(ch),
;

/// The string that holds the characters `chars[from..to]`.
pub fn text_of(chars: &Vec<char>, from: usize, to: usize) -> (text: String)
    requires
        from <= to <= chars@.len(),
    ensures
        text@ == chars@.subrange(from as int, to as int),
{
    let mut text = String::new();
    let mut i: usize = from;
    assert(text@ =~= chars@.subrange(from as int, from as int));
    while i < to
        invariant
            from <= i <= to <= chars@.len(),
            text@ == chars@.subrange(from as int, i as int),
        decreases to - i,
    {
        text.push(chars[i]);
        assert(text@ =~= chars@.subrange(from as int, i + 1));
        i += 1;
    }
    text
}

/// Whether two strings hold the same text.
pub fn same_text(a: &str, b: &str) -> (same: bool)
    ensures
        same == (a@ == b@),
{
    let left = a.as_bytes();
    let right = b.as_bytes();
    proof {
        vstd::utf8::encode_utf8_decode_utf8(a@);
        vstd::utf8::encode_utf8_decode_utf8(b@);
    }
    if left.len() != right.len() {
        return false;
    }
    let n = left.len();
    let mut i: usize = 0;
    while i < n
        invariant
            i <= n,
            n == left@.len(),
            n == right@.len(),
            left@ == vstd::utf8::encode_utf8(a@),
            right@ == vstd::utf8::encode_utf8(b@),
            forall|j: int| 0 <= j < i ==> left@[j] == right@[j],
        decreases n - i,
    {
        if left[i] != right[i] {
            return false;
        }
        i += 1;
    }
    assert(left@ =~= right@);
    true
}

/// The characters of `text`, in order.
pub fn chars_of(text: &str) -> (chars: Vec<char>)
    ensures
        chars@ == text@,
{
    let mut chars: Vec<char> = Vec::new();
    for c in iter: text.chars()
        invariant
            iter.seq() == text@,
            chars@ == iter.seq().take(iter.index() as int),
    {
        chars.push(c);
        assert(chars@ =~= iter.seq().take(iter.index() + 1));
    }
    assert(chars@ =~= text@);
    chars
}

/// The digit that `c` writes, if it is a digit.
pub fn digit_of(c: char) -> (digit: Option<u64>)
    ensures
        match digit {
            Some(value) => is_digit(c) && value == digit_value(c),
            None => !is_digit(c),
        },
{
    if c >= '0' && c <= '9' {
        Some((c as u32 - '0' as u32) as u64)
    } else {
        None
    }
}

/// Whether `c` is white space.
pub fn space(c: char) -> (yes: bool)
    ensures
        yes == is_space(c),
{
    (c >= '\u{9}' && c <= '\u{D}') || c == ' ' || c == '\u{85}' || c == '\u{A0}' || c == '\u{1680}'
        || (c >= '\u{2000}' && c <= '\u{200A}') || c == '\u{2028}' || c == '\u{2029}' || c
        == '\u{202F}' || c == '\u{205F}' || c == '\u{3000}'
}

/// Reads a row of digits as a number of `0..=max`.
pub fn parse_digits(digits: &Vec<char>, max: u64) -> (value: Option<u64>)
    ensures
        match value {
            Some(n) => digits@.len() > 0 && all_digits(digits@) && n == decimal(digits@) && n
                <= max,
            None => !(digits@.len() > 0 && all_digits(digits@) && decimal(digits@) <= max),
        },
{
    let n = digits.len();
    if n == 0 {
        return None;
    }
    let mut value: u64 = 0;
    let mut i: usize = 0;
    assert(digits@.take(0) =~= Seq::empty());
    while i < n
        invariant
            i <= n,
            n == digits@.len(),
            value == decimal(digits@.take(i as int)),
            value <= max,
            forall|j: int| 0 <= j < i ==> is_digit(#[trigger] digits@[j]),
        decreases n - i,
    {
        let digit = match digit_of(digits[i]) {
            Some(digit) => digit,
            None => {
                return None;
            },
        };
        proof {
            assert(digits@.take(i + 1).drop_last() =~= digits@.take(i as int));
            decimal_grows(digits@, i + 1);
        }
        let longer: u128 = value as u128 * 10 + digit as u128;
        if longer > max as u128 {
            return None;
        }
        value = longer as u64;
        i += 1;
    }
    assert(digits@.take(n as int) =~= digits@);
    Some(value)
}

/// Reads `text` as a number of `0..=max`, with `+` before it or not.
pub fn parse_unsigned(text: &Vec<char>, max: u64) -> (value: Option<u64>)
    ensures
        match value {
            Some(n) => unsigned_of(text@, max as nat) == Some(n as nat),
            None => unsigned_of(text@, max as nat) is None,
        },
{
    let digits = if text.len() > 0 && text[0] == '+' {
        tail_of(text, 1)
    } else {
        tail_of(text, 0)
    };
    assert(digits@ =~= unsigned_part(text@, false));
    parse_digits(&digits, max)
}

/// Reads `text` as a number of 32 bits with a sign, `+` or `-` before it or
/// not.
pub fn parse_i32(text: &Vec<char>) -> (value: Option<i32>)
    ensures
        match value {
            Some(n) => signed_of(text@, i32::MIN as int, i32::MAX as int) == Some(n as int),
            None => signed_of(text@, i32::MIN as int, i32::MAX as int) is None,
        },
{
    let negative = text.len() > 0 && text[0] == '-';
    let digits = if text.len() > 0 && (text[0] == '+' || text[0] == '-') {
        tail_of(text, 1)
    } else {
        tail_of(text, 0)
    };
    assert(digits@ =~= unsigned_part(text@, true));
    if negative {
        match parse_digits(&digits, 0x8000_0000) {
            Some(n) => Some((0 - n as i64) as i32),
            None => None,
        }
    } else {
        match parse_digits(&digits, 0x7fff_ffff) {
            Some(n) => Some(n as i32),
            None => None,
        }
    }
}

/// The characters of `text` from `from` on.
pub fn tail_of(text: &Vec<char>, from: usize) -> (tail: Vec<char>)
    requires
        from <= text@.len(),
    ensures
        tail@ == text@.skip(from as int),
{
    let mut tail: Vec<char> = Vec::new();
    let n = text.len();
    let mut i: usize = from;
    while i < n
        invariant
            from <= i <= n,
            n == text@.len(),
            tail@ == text@.subrange(from as int, i as int),
        decreases n - i,
    {
        tail.push(text[i]);
        assert(tail@ =~= text@.subrange(from as int, i + 1));
        i += 1;
    }
    assert(tail@ =~= text@.skip(from as int));
    tail
}

/// The pieces of `text` between the occurrences of `sep`.
pub fn split_on(text: &Vec<char>, sep: char) -> (pieces: Vec<Vec<char>>)
    ensures
        pieces@.len() == split(text@, sep).len(),
        forall|i: int| 0 <= i < pieces@.len() ==> (#[trigger] pieces@[i])@ == split(text@, sep)[i],
{
    let mut pieces: Vec<Vec<char>> = Vec::new();
    let mut piece: Vec<char> = Vec::new();
    let n = text.len();
    let mut i: usize = 0;
    assert(text@.take(0) =~= Seq::empty());
    while i < n
        invariant
            i <= n,
            n == text@.len(),
            pieces@.len() + 1 == split(text@.take(i as int), sep).len(),
            forall|j: int|
                0 <= j < pieces@.len() ==> (#[trigger] pieces@[j])@ == split(
                    text@.take(i as int),
                    sep,
                )[j],
            piece@ == split(text@.take(i as int), sep).last(),
        decreases n - i,
    {
        let c = text[i];
        proof {
            assert(text@.take(i + 1).drop_last() =~= text@.take(i as int));
            assert(text@.take(i + 1).last() == c);
        }
        if c == sep {
            pieces.push(piece);
            piece = Vec::new();
        } else {
            piece.push(c);
        }
        i += 1;
    }
    assert(text@.take(n as int) =~= text@);
    pieces.push(piece);
    pieces
}

/// `text` without the white space at its two ends.
pub fn trim(text: &Vec<char>) -> (inner: Vec<char>)
    ensures
        inner@ == trimmed(text@),
{
    let n = text.len();
    let mut from: usize = 0;
    while from < n && space(text[from])
        invariant
            from <= n,
            n == text@.len(),
            forall|i: int| 0 <= i < from ==> is_space(#[trigger] text@[i]),
        decreases n - from,
    {
        from += 1;
    }
    let mut to: usize = n;
    while to > from && space(text[to - 1])
        invariant
            from <= to <= n,
            n == text@.len(),
            forall|i: int| to <= i < n ==> is_space(#[trigger] text@[i]),
        decreases to,
    {
        to -= 1;
    }
    let mut inner: Vec<char> = Vec::new();
    let mut i: usize = from;
    while i < to
        invariant
            from <= i <= to <= n,
            n == text@.len(),
            inner@ == text@.subrange(from as int, i as int),
        decreases to - i,
    {
        inner.push(text[i]);
        assert(inner@ =~= text@.subrange(from as int, i + 1));
        i += 1;
    }
    proof {
        assert(is_trimmed(text@, from as int, to as int));
        trim_is_unique(text@, from as int, to as int);
    }
    inner
}

/// The lines of `text`.
pub fn lines_of(text: &Vec<char>) -> (rows: Vec<Vec<char>>)
    ensures
        rows@.len() == lines(text@).len(),
        forall|i: int| 0 <= i < rows@.len() ==> (#[trigger] rows@[i])@ == lines(text@)[i],
{
    let mut pieces = split_on(text, '\n');
    let ghost parts = split(text@, '\n');
    proof {
        split_has_pieces(text@, '\n');
    }
    let last = match pieces.pop() {
        Some(last) => last,
        None => Vec::new(),
    };
    assert(last@ == parts.last());
    let mut rows: Vec<Vec<char>> = Vec::new();
    let n = pieces.len();
    let mut i: usize = 0;
    while i < n
        invariant
            i <= n,
            n == pieces@.len(),
            n + 1 == parts.len(),
            forall|j: int| 0 <= j < n ==> (#[trigger] pieces@[j])@ == parts[j],
            rows@.len() == i,
            forall|j: int| 0 <= j < i ==> (#[trigger] rows@[j])@ == without_cr(parts[j]),
        decreases n - i,
    {
        let piece = &pieces[i];
        let m = piece.len();
        let row = if m > 0 && piece[m - 1] == '\r' {
            let mut row: Vec<char> = Vec::new();
            let mut k: usize = 0;
            while k < m - 1
                invariant
                    k <= m - 1,
                    m == piece@.len(),
                    row@ == piece@.take(k as int),
                decreases m - k,
            {
                row.push(piece[k]);
                assert(row@ =~= piece@.take(k + 1));
                k += 1;
            }
            assert(row@ =~= piece@.drop_last());
            row
        } else {
            tail_of(piece, 0)
        };
        assert(row@ =~= without_cr(parts[i as int]));
        rows.push(row);
        i += 1;
    }
    if last.len() > 0 {
        rows.push(last);
    }
    assert(rows@.len() == lines(text@).len());
    rows
}

} // verus!
