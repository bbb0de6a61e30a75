//! Elves and shelves: how often a text speaks of an elf, of an elf on a
//! shelf, and of a shelf without one.

use vstd::prelude::*;
use crate::pattern::regex_count;
use crate::pattern::regex_count_of;

verus! {

/// An elf.
pub const ELF: &'static str = "elf";

/// An elf that sits on a shelf.
pub const ELF_ON_A_SHELF: &'static str = "elf(?= on a shelf)";

/// A shelf.
pub const SHELF: &'static str = "shelf";

/// The three counts.
#[derive(Clone, Copy, Debug, PartialEq, Eq, Structural)]
pub struct ElfOnShelfResult {
    pub elf: u64,
    pub elf_on_a_shelf: u64,
    pub shelf_with_no_elf_on_it: u64,
}

/// The three counts, from the number of elves, of elves on a shelf and of
/// shelves. There are none where more elves sit on shelves than there are
/// shelves.
pub open spec fn tally_of(elves: usize, seated: usize, shelves: usize) -> Option<
    ElfOnShelfResult,
> {
    if seated <= shelves {
        Some(
            ElfOnShelfResult {
                elf: elves as u64,
                elf_on_a_shelf: seated as u64,
                shelf_with_no_elf_on_it: (shelves - seated) as u64,
            },
        )
    } else {
        None
    }
}

/// The three counts, from the number of elves, of elves on a shelf and of
/// shelves.
pub fn tally(elves: usize, seated: usize, shelves: usize) -> (counts: Option<ElfOnShelfResult>)
    ensures
        counts == tally_of(elves, seated, shelves),
{
    if seated <= shelves {
        Some(
            ElfOnShelfResult {
                elf: elves as u64,
                elf_on_a_shelf: seated as u64,
                shelf_with_no_elf_on_it: (shelves - seated) as u64,
            },
        )
    } else {
        None
    }
}

/// The three counts of a text, if the pattern engine finds all three.
pub open spec fn counts_of(text: Seq<char>) -> Option<ElfOnShelfResult> {
    match (
        regex_count_of(SHELF@, text),
        regex_count_of(ELF_ON_A_SHELF@, text),
        regex_count_of(ELF@, text),
    ) {
        (Some(shelves), Some(seated), Some(elves)) => tally_of(elves, seated, shelves),
        _ => None,
    }
}

/// Counts the elves, the elves on a shelf and the shelves without an elf
/// in a text.
pub fn elf_on_shelf(elf_text: &str) -> (counts: Option<ElfOnShelfResult>)
    ensures
        counts == counts_of(elf_text@),
{
    let shelves = match regex_count(SHELF, elf_text) {
        Some(shelves) => shelves,
        None => {
            return None;
        },
    };
    let seated = match regex_count(ELF_ON_A_SHELF, elf_text) {
        Some(seated) => seated,
        None => {
            return None;
        },
    };
    let elves = match regex_count(ELF, elf_text) {
        Some(elves) => elves,
        None => {
            return None;
        },
    };
    tally(elves, seated, shelves)
}

} // verus!
