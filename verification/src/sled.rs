//! The sled: the identifiers of its packets, folded into one number.

use vstd::prelude::*;
use crate::text::chars_of;
use crate::text::parse_i32;
use crate::text::signed_of;
use crate::text::split;
use crate::text::split_on;

verus! {

/// The most packets that a sled takes.
pub const MAX_PACKETS: usize = 20;

/// What is said of a sled with too many packets.
pub const TOO_MANY_PACKETS: &'static str =
    "packet ids must be between 1 and 20 inclusive packets in a sled";

/// Why a sled has no number.
#[derive(Clone, Copy, Debug, PartialEq, Eq, Structural)]
pub enum SledError {
    /// More than twenty packets.
    TooManyPackets,
    /// The cube does not fit in 32 bits with a sign.
    Overflow,
}

/// The identifier that one piece of the path writes; zero where it writes
/// no number of 32 bits.
pub open spec fn id_of(piece: Seq<char>) -> i32 {
    match signed_of(piece, i32::MIN as int, i32::MAX as int) {
        Some(value) => value as i32,
        None => 0,
    }
}

/// The identifiers folded with exclusive or.
pub open spec fn xor_all(pieces: Seq<Seq<char>>) -> i32
    decreases pieces.len(),
{
    if pieces.len() == 0 {
        0
    } else {
        xor_all(pieces.drop_last()) ^ id_of(pieces.last())
    }
}

/// The third power of `x`.
pub open spec fn cube_of(x: int) -> int {
    x * x * x
}

/// The number of a sled whose packets are named in `path`, one between
/// each two slashes.
pub open spec fn sled_number(path: Seq<char>) -> Result<i32, SledError> {
    let pieces = split(path, '/');
    let folded = xor_all(pieces) as int;
    if pieces.len() > MAX_PACKETS {
        Err(SledError::TooManyPackets)
    } else if i32::MIN <= cube_of(folded) <= i32::MAX {
        Ok(cube_of(folded) as i32)
    } else {
        Err(SledError::Overflow)
    }
}

/// The third power of `x`, if it fits in 32 bits with a sign.
pub fn cube(x: i32) -> (third: Option<i32>)
    ensures
        match third {
            Some(value) => value == cube_of(x as int),
            None => !(i32::MIN <= cube_of(x as int) <= i32::MAX),
        },
{
    let wide: i128 = x as i128;
    assert(-0x1_0000_0000 < wide * wide < 0x1_0000_0000_0000_0000) by (nonlinear_arith)
        requires
            -0x8000_0001 < wide < 0x8000_0000,
    ;
    let square: i128 = wide * wide;
    assert(-0x1_0000_0000_0000_0000_0000_0000 < square * wide
        < 0x1_0000_0000_0000_0000_0000_0000) by (nonlinear_arith)
        requires
            -0x8000_0001 < wide < 0x8000_0000,
            -0x1_0000_0000 < square < 0x1_0000_0000_0000_0000,
    ;
    let third: i128 = square * wide;
    if third < i32::MIN as i128 || third > i32::MAX as i128 {
        None
    } else {
        Some(third as i32)
    }
}

/// The number of a sled: its packet identifiers, one between each two
/// slashes of `ids` and zero where a piece writes no number, folded with
/// exclusive or and raised to the third power.
pub fn packet_ids(ids: &str) -> (number: Result<i32, SledError>)
    ensures
        number == sled_number(ids@),
{
    let chars = chars_of(ids);
    let pieces = split_on(&chars, '/');
    let ghost parts = split(ids@, '/');
    let n = pieces.len();
    if n > MAX_PACKETS {
        return Err(SledError::TooManyPackets);
    }
    let mut folded: i32 = 0;
    let mut i: usize = 0;
    assert(parts.take(0) =~= Seq::empty());
    while i < n
        invariant
            i <= n,
            n == pieces@.len(),
            n == parts.len(),
            forall|r: int| 0 <= r < n ==> (#[trigger] pieces@[r])@ == parts[r],
            folded == xor_all(parts.take(i as int)),
        decreases n - i,
    {
        let id = match parse_i32(&pieces[i]) {
            Some(id) => id,
            None => 0,
        };
        proof {
            assert(parts.take(i + 1).drop_last() =~= parts.take(i as int));
            assert(parts.take(i + 1).last() == parts[i as int]);
        }
        folded = folded ^ id;
        i += 1;
    }
    assert(parts.take(n as int) =~= parts);
    match cube(folded) {
        Some(third) => Ok(third),
        None => Err(SledError::Overflow),
    }
}

} // verus!
