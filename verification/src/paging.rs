//! Paging through a list of names: a window cut out of the list, and the
//! window cut into pieces of one size.

use vstd::prelude::*;

verus! {

/// What a page holds: names, or names in pieces.
#[derive(Debug)]
pub enum Page {
    Flat(Vec<String>),
    Split(Vec<Vec<String>>),
}

/// The window of `names` that begins at `offset` and holds `limit` names, or
/// all that follow where no limit is given. A window that does not lie
/// within the list is empty.
pub open spec fn window_of(names: Seq<String>, offset: nat, limit: Option<usize>) -> Seq<String> {
    match limit {
        None => if offset <= names.len() {
            names.skip(offset as int)
        } else {
            Seq::empty()
        },
        Some(count) => if offset + count <= names.len() {
            names.subrange(offset as int, offset + count)
        } else {
            Seq::empty()
        },
    }
}

/// The smaller of two numbers.
pub open spec fn least_of(a: int, b: int) -> int {
    if a <= b {
        a
    } else {
        b
    }
}

/// Whether `pieces` is `names` cut into pieces of `size` names each, the
/// last piece shorter where the names do not go round.
pub open spec fn is_chunking(names: Seq<String>, size: nat, pieces: Seq<Seq<String>>) -> bool {
    &&& pieces.len() * size >= names.len()
    &&& pieces.len() > 0 ==> (pieces.len() - 1) * size < names.len()
    &&& forall|i: int|
        0 <= i < pieces.len() ==> #[trigger] pieces[i] == names.subrange(
            i * size,
            least_of(i * size + size, names.len() as int),
        )
}

/// The names of each piece, piece by piece.
pub open spec fn pieces_of(pieces: Seq<Vec<String>>) -> Seq<Seq<String>> {
    Seq::new(pieces.len(), |i: int| pieces[i]@)
}

fn copy_range(names: &Vec<String>, from: usize, to: usize) -> (copy: Vec<String>)
    requires
        from <= to <= names@.len(),
    ensures
        copy@ == names@.subrange(from as int, to as int),
{
    let mut copy: Vec<String> = Vec::new();
    let mut i: usize = from;
    while i < to
        invariant
            from <= i <= to <= names@.len(),
            copy@ == names@.subrange(from as int, i as int),
        decreases to - i,
    {
        copy.push(names[i].clone());
        assert(copy@ =~= names@.subrange(from as int, i + 1));
        i += 1;
    }
    copy
}

/// Cuts a window out of a list of names.
pub fn window(names: &Vec<String>, offset: usize, limit: Option<usize>) -> (cut: Vec<String>)
    ensures
        cut@ == window_of(names@, offset as nat, limit),
{
    let n = names.len();
    match limit {
        None => {
            if offset <= n {
                let cut = copy_range(names, offset, n);
                assert(cut@ =~= names@.skip(offset as int));
                cut
            } else {
                Vec::new()
            }
        },
        Some(count) => {
            if offset <= n && count <= n - offset {
                copy_range(names, offset, offset + count)
            } else {
                Vec::new()
            }
        },
    }
}

/// Cuts a list of names into pieces of `size` names each.
pub fn chunks(names: &Vec<String>, size: usize) -> (pieces: Vec<Vec<String>>)
    requires
        size > 0,
    ensures
        is_chunking(names@, size as nat, pieces_of(pieces@)),
{
    let n = names.len();
    let mut pieces: Vec<Vec<String>> = Vec::new();
    let mut start: usize = 0;
    assert(pieces@.len() * size == 0) by (nonlinear_arith)
        requires
            pieces@.len() == 0,
    ;
    while n - start > size
        invariant
            size > 0,
            n == names@.len(),
            start <= n,
            start == pieces@.len() * size,
            forall|i: int|
                0 <= i < pieces@.len() ==> (#[trigger] pieces@[i])@ == names@.subrange(
                    i * size,
                    i * size + size,
                ),
        decreases n - start,
    {
        let ghost count = pieces@.len() as int;
        let piece = copy_range(names, start, start + size);
        pieces.push(piece);
        assert((count + 1) * size == count * size + size) by (nonlinear_arith);
        start = start + size;
    }
    let ghost full = pieces@.len() as int;
    if start < n {
        let piece = copy_range(names, start, n);
        pieces.push(piece);
    }
    proof {
        let cut = pieces_of(pieces@);
        assert((full + 1) * size == full * size + size) by (nonlinear_arith);
        assert forall|i: int| 0 <= i < cut.len() implies #[trigger] cut[i] == names@.subrange(
            i * size,
            least_of(i * size + size, names@.len() as int),
        ) by {
            if i < full {
                assert((i + 1) * size <= full * size) by (nonlinear_arith)
                    requires
                        i + 1 <= full,
                        size > 0,
                ;
                assert((i + 1) * size == i * size + size) by (nonlinear_arith);
            }
        }
        if cut.len() > 0 && start >= n {
            assert((full - 1) * size == full * size - size) by (nonlinear_arith);
        }
    }
    pieces
}

/// The page that a request asks for. With a piece size, the window is cut
/// into pieces; and where a piece size comes without a limit, the whole
/// list is, whatever the offset.
pub open spec fn shows(
    names: Seq<String>,
    offset: nat,
    limit: Option<usize>,
    split: Option<usize>,
    page: Page,
) -> bool {
    match split {
        None => page matches Page::Flat(cut) && cut@ == window_of(names, offset, limit),
        Some(size) => page matches Page::Split(pieces) && is_chunking(
            if limit is Some {
                window_of(names, offset, limit)
            } else {
                names
            },
            size as nat,
            pieces_of(pieces@),
        ),
    }
}

/// Makes the page that a request asks for.
pub fn slicing(names: &Vec<String>, offset: usize, limit: Option<usize>, split: Option<usize>) -> (page:
    Page)
    requires
        split != Some(0usize),
        limit matches Some(count) ==> offset + count <= usize::MAX,
    ensures
        shows(names@, offset as nat, limit, split, page),
{
    match split {
        None => Page::Flat(window(names, offset, limit)),
        Some(size) => {
            if limit.is_some() {
                let cut = window(names, offset, limit);
                Page::Split(chunks(&cut, size))
            } else {
                Page::Split(chunks(names, size))
            }
        },
    }
}

} // verus!
