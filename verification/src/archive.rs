//! The archive: reading the log of its commits, and looking for the cookie
//! in a file.

use vstd::prelude::*;
use crate::text::chars_of;
use crate::text::lines;
use crate::text::lines_of;
use crate::text::same_text;
use crate::text::text_of;

verus! {

/// The branch whose log is read.
pub const BRANCH_NAME: &'static str = "christmas";

/// The name of the file that may hold the cookie.
pub const SANTA_FILE: &'static str = "santa.txt";

/// One commit of the log: who made it, and its hash.
#[derive(Debug)]
pub struct Commit {
    pub author: String,
    pub hash: String,
}

/// Whether the first comma of `line` stands at `i`.
pub open spec fn is_cut(line: Seq<char>, i: int) -> bool {
    &&& 0 <= i < line.len()
    &&& line[i] == ','
    &&& forall|j: int| 0 <= j < i ==> line[j] != ','
}

/// Whether `line` has a comma.
pub open spec fn has_comma(line: Seq<char>) -> bool {
    exists|i: int| 0 <= i < line.len() && line[i] == ','
}

/// Whether `commit` is what `line` writes: the author before the first
/// comma, the hash after it.
pub open spec fn is_entry(line: Seq<char>, commit: Commit) -> bool {
    exists|i: int|
        #![trigger line.take(i)]
        is_cut(line, i) && commit.author@ == line.take(i) && commit.hash@ == line.skip(i + 1)
}

/// Reads one line of the log; nothing where the line has no comma.
pub fn parse_entry(line: &Vec<char>) -> (entry: Option<Commit>)
    ensures
        match entry {
            Some(commit) => is_entry(line@, commit),
            None => !has_comma(line@),
        },
{
    let n = line.len();
    let mut i: usize = 0;
    while i < n
        invariant
            i <= n,
            n == line@.len(),
            forall|j: int| 0 <= j < i ==> line@[j] != ',',
        decreases n - i,
    {
        if line[i] == ',' {
            let author = text_of(line, 0, i);
            let hash = text_of(line, i + 1, n);
            let commit = Commit { author, hash };
            proof {
                assert(is_cut(line@, i as int));
                assert(commit.author@ =~= line@.take(i as int));
                assert(commit.hash@ =~= line@.skip(i + 1));
            }
            return Some(commit);
        }
        i += 1;
    }
    None
}

/// Reads the log, one commit to a line, the newest first; nothing where a
/// line has no comma.
pub fn parse_log(log: &str) -> (commits: Option<Vec<Commit>>)
    ensures
        match commits {
            Some(all) => all@.len() == lines(log@).len() && forall|i: int|
                0 <= i < all@.len() ==> is_entry(lines(log@)[i], #[trigger] all@[i]),
            None => exists|i: int| 0 <= i < lines(log@).len() && !has_comma(#[trigger] lines(log@)[i]),
        },
{
    let chars = chars_of(log);
    let rows = lines_of(&chars);
    let ghost text = lines(log@);
    let mut commits: Vec<Commit> = Vec::new();
    let n = rows.len();
    let mut i: usize = 0;
    while i < n
        invariant
            i <= n,
            n == rows@.len(),
            n == text.len(),
            text == lines(log@),
            forall|r: int| 0 <= r < n ==> (#[trigger] rows@[r])@ == text[r],
            commits@.len() == i,
            forall|r: int| 0 <= r < i ==> is_entry(text[r], #[trigger] commits@[r]),
        decreases n - i,
    {
        match parse_entry(&rows[i]) {
            Some(commit) => {
                commits.push(commit);
            },
            None => {
                assert(!has_comma(text[i as int]));
                return None;
            },
        }
        i += 1;
    }
    Some(commits)
}

/// Whether `word` stands in `text` at `i`.
pub open spec fn stands_in(text: Seq<char>, word: Seq<char>, i: int) -> bool {
    0 <= i && i + word.len() <= text.len() && text.subrange(i, i + word.len()) == word
}

/// Whether `word` stands somewhere in `text`.
pub open spec fn contains_word(text: Seq<char>, word: Seq<char>) -> bool {
    exists|i: int| stands_in(text, word, i)
}

/// Whether `word` stands somewhere in `text`.
pub fn contains(text: &str, word: &str) -> (found: bool)
    ensures
        found == contains_word(text@, word@),
{
    let hay = chars_of(text);
    let needle = chars_of(word);
    let n = hay.len();
    let m = needle.len();
    if m > n {
        return false;
    }
    let mut i: usize = 0;
    while i <= n - m
        invariant
            m <= n,
            n == hay@.len(),
            m == needle@.len(),
            hay@ == text@,
            needle@ == word@,
            i <= n - m + 1,
            forall|j: int| 0 <= j < i ==> !stands_in(text@, word@, j),
        decreases n - m + 1 - i,
    {
        let mut k: usize = 0;
        while k < m && hay[i + k] == needle[k]
            invariant
                k <= m,
                i + m <= n,
                n == hay@.len(),
                m == needle@.len(),
                forall|j: int| 0 <= j < k ==> hay@[i + j] == needle@[j],
            decreases m - k,
        {
            k += 1;
        }
        if k == m {
            assert(hay@.subrange(i as int, i + m) =~= needle@);
            assert(stands_in(text@, word@, i as int));
            return true;
        }
        assert(!stands_in(text@, word@, i as int)) by {
            if stands_in(text@, word@, i as int) {
                assert(text@.subrange(i as int, i + m)[k as int] == word@[k as int]);
            }
        }
        i += 1;
    }
    false
}

/// Whether a file holds the cookie.
pub fn holds_cookie(content: &str) -> (found: bool)
    ensures
        found == contains_word(content@, "COOKIE"@),
{
    contains(content, "COOKIE")
}

/// Whether a file is the one that may hold the cookie, by its name.
pub fn is_santa_file(name: &str) -> (yes: bool)
    ensures
        yes == (name@ == SANTA_FILE@),
{
    same_text(name, SANTA_FILE)
}

/// What is said of the commit that holds the cookie: its author, a blank,
/// and its hash.
pub fn finding(commit: &Commit) -> (text: String)
    ensures
        text@ == commit.author@ + " "@ + commit.hash@,
{
    let mut text = commit.author.clone();
    text.append(" ");
    text.append(commit.hash.as_str());
    text
}

/// The sum of the first `count` sizes.
pub open spec fn size_of_first(sizes: Seq<u64>, count: nat) -> nat
    decreases count,
{
    if count == 0 {
        0
    } else {
        size_of_first(sizes, (count - 1) as nat) + sizes[count - 1] as nat
    }
}

/// The size of all files together; nothing where it does not fit in 64
/// bits.
pub fn total_size(sizes: &Vec<u64>) -> (total: Option<u64>)
    ensures
        match total {
            Some(sum) => sum == size_of_first(sizes@, sizes@.len()),
            None => size_of_first(sizes@, sizes@.len()) > u64::MAX,
        },
{
    let n = sizes.len();
    let mut sum: u64 = 0;
    let mut i: usize = 0;
    while i < n
        invariant
            i <= n,
            n == sizes@.len(),
            sum == size_of_first(sizes@, i as nat),
        decreases n - i,
    {
        if sizes[i] > u64::MAX - sum {
            proof {
                size_grows(sizes@, (i + 1) as nat, n as nat);
            }
            return None;
        }
        sum = sum + sizes[i];
        i += 1;
    }
    Some(sum)
}

/// The size of more files is no less.
proof fn size_grows(sizes: Seq<u64>, fewer: nat, more: nat)
    requires
        fewer <= more,
    ensures
        size_of_first(sizes, fewer) <= size_of_first(sizes, more),
    decreases more,
{
    if fewer < more {
        size_grows(sizes, fewer, (more - 1) as nat);
    }
}

} // verus!
