use cch23_challenge::paging::chunks;
use cch23_challenge::paging::slicing;
use cch23_challenge::paging::window;
use cch23_challenge::paging::Page;

fn names() -> Vec<String> {
    ["Ava", "Caspian", "Oliver", "Penelope", "Sebastian", "Susan", "Violet"]
        .iter()
        .map(|n| n.to_string())
        .collect()
}

fn flat(page: Page) -> Vec<String> {
    match page {
        Page::Flat(cut) => cut,
        Page::Split(_) => panic!("the page is in pieces"),
    }
}

fn pieces(page: Page) -> Vec<Vec<String>> {
    match page {
        Page::Split(cut) => cut,
        Page::Flat(_) => panic!("the page is in one piece"),
    }
}

#[test]
fn offset_and_limit_cut_a_window() {
    assert_eq!(flat(slicing(&names(), 3, Some(2), None)), vec!["Penelope", "Sebastian"]);
    assert_eq!(flat(slicing(&names(), 0, Some(7), None)), names());
    assert_eq!(flat(slicing(&names(), 7, Some(0), None)), Vec::<String>::new());
}

#[test]
fn offset_alone_gives_the_rest() {
    assert_eq!(flat(slicing(&names(), 5, None, None)), vec!["Susan", "Violet"]);
    assert_eq!(flat(slicing(&names(), 0, None, None)), names());
    assert_eq!(flat(slicing(&names(), 7, None, None)), Vec::<String>::new());
    assert_eq!(flat(slicing(&names(), 8, None, None)), Vec::<String>::new());
}

#[test]
fn window_beyond_the_list_is_empty() {
    assert_eq!(flat(slicing(&names(), 5, Some(3), None)), Vec::<String>::new());
    assert_eq!(flat(slicing(&names(), 8, Some(0), None)), Vec::<String>::new());
    assert_eq!(window(&names(), 6, Some(1)), vec!["Violet"]);
    assert_eq!(window(&names(), 6, Some(2)), Vec::<String>::new());
    assert_eq!(window(&names(), usize::MAX, Some(usize::MAX)), Vec::<String>::new());
}

#[test]
fn split_cuts_the_list_into_pieces() {
    let cut = pieces(slicing(&names(), 0, None, Some(4)));
    assert_eq!(cut, vec![vec!["Ava", "Caspian", "Oliver", "Penelope"], vec![
        "Sebastian",
        "Susan",
        "Violet"
    ]]);
    let cut = pieces(slicing(&names(), 0, None, Some(7)));
    assert_eq!(cut, vec![names()]);
    let cut = pieces(slicing(&names(), 0, None, Some(100)));
    assert_eq!(cut, vec![names()]);
    let cut = pieces(slicing(&names(), 0, None, Some(1)));
    assert_eq!(cut.len(), 7);
    assert_eq!(cut[6], vec!["Violet"]);
}

#[test]
fn split_without_limit_takes_no_notice_of_the_offset() {
    let cut = pieces(slicing(&names(), 5, None, Some(4)));
    assert_eq!(cut.len(), 2);
    assert_eq!(cut[0], vec!["Ava", "Caspian", "Oliver", "Penelope"]);
}

#[test]
fn split_with_limit_cuts_the_window() {
    let cut = pieces(slicing(&names(), 2, Some(4), Some(2)));
    assert_eq!(cut, vec![vec!["Oliver", "Penelope"], vec!["Sebastian", "Susan"]]);
    let cut = pieces(slicing(&names(), 2, Some(3), Some(2)));
    assert_eq!(cut, vec![vec!["Oliver", "Penelope"], vec!["Sebastian"]]);
    let cut = pieces(slicing(&names(), 6, Some(4), Some(2)));
    assert_eq!(cut, Vec::<Vec<String>>::new());
}

#[test]
fn chunks_of_an_empty_list_are_none() {
    assert_eq!(chunks(&Vec::new(), 3), Vec::<Vec<String>>::new());
    assert_eq!(chunks(&names(), 3).len(), 3);
    assert_eq!(chunks(&names(), usize::MAX).len(), 1);
}
