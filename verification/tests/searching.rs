//! Searching bytes for a delimiter.
use multipeek::IteratorExt;
use networked_filesystem::matching::{matches_at, part};
use networked_filesystem::peek::collect;
use networked_filesystem::subsequence::{
    find_subsequence_by_windows_iter, find_subsequence_bytes_full, find_subsequence_bytes_full_v1,
    find_subsequence_bytes_iter, find_subsequence_bytes_minor_iter, SubsequenceStatus,
};

#[test]
fn windows_find_the_first_occurrence() {
    let bytes = b"a//b//f//f".to_vec();
    let found = find_subsequence_by_windows_iter(b"//f", bytes.into_iter().multipeek());
    assert_eq!(found, SubsequenceStatus::FoundAt(4));
}

#[test]
fn windows_do_not_find_what_is_cut_off() {
    let found = find_subsequence_by_windows_iter(b"//f", b"a//".to_vec().into_iter().multipeek());
    assert_eq!(found, SubsequenceStatus::NotMatched);
    let found = find_subsequence_by_windows_iter(b"//f", Vec::new().into_iter().multipeek());
    assert_eq!(found, SubsequenceStatus::NotMatched);
}

#[test]
fn windows_count_from_the_cursor() {
    let mut ahead = b"ffxf".to_vec().into_iter().multipeek();
    ahead.next();
    ahead.next();
    assert_eq!(find_subsequence_by_windows_iter(b"f", ahead), SubsequenceStatus::FoundAt(1));
}

#[test]
fn both_full_searches_agree() {
    let cases: [(&[u8], &[u8], Result<u16, SubsequenceStatus>); 7] = [
        (b"//f", b"xx//f//f", Ok(2)),
        (b"//f", b"///f", Ok(1)),
        (b"//f", b"//", Err(SubsequenceStatus::NotMatched)),
        (b"//f", b"abc", Err(SubsequenceStatus::NotMatched)),
        (b"a", b"", Err(SubsequenceStatus::NotMatched)),
        (b"", b"", Ok(0)),
        (b"", b"abc", Ok(0)),
    ];
    for (delimiter, bytes, expected) in cases {
        assert_eq!(find_subsequence_bytes_full(delimiter.to_vec(), bytes.to_vec()), expected);
        assert_eq!(find_subsequence_bytes_full_v1(delimiter.to_vec(), bytes.to_vec()), expected);
    }
}

#[test]
fn full_search_reaches_the_last_position() {
    let mut bytes = vec![0u8; 65535];
    bytes.push(7);
    assert_eq!(find_subsequence_bytes_full(vec![7], bytes), Ok(65535));
}

#[test]
fn what_stands_at_the_cursor_is_compared() {
    let compared =
        |bytes: &[u8]| find_subsequence_bytes_iter(b"//f", bytes.to_vec().into_iter().multipeek());
    assert_eq!(compared(b"//fx"), SubsequenceStatus::Pending);
    assert_eq!(compared(b"//x"), SubsequenceStatus::Continue);
    assert_eq!(compared(b"x//f"), SubsequenceStatus::Continue);
    assert_eq!(compared(b"//"), SubsequenceStatus::NotMatched);
    assert_eq!(compared(b""), SubsequenceStatus::NotMatched);
}

#[test]
fn one_byte_is_compared() {
    let compared = |position: usize, delimiter: &[u8]| {
        find_subsequence_bytes_minor_iter(position, delimiter, b"ab".to_vec().into_iter().multipeek())
    };
    assert_eq!(compared(1, b"bx"), SubsequenceStatus::Pending);
    assert_eq!(compared(0, b"bx"), SubsequenceStatus::Continue);
    assert_eq!(compared(2, b"bx"), SubsequenceStatus::NotMatched);
    assert_eq!(compared(0, b""), SubsequenceStatus::Continue);
}

#[test]
fn bytes_that_are_ahead_are_collected() {
    let mut ahead = vec![1u8, 2, 3].into_iter().multipeek();
    assert_eq!(ahead.peek_nth(2), Some(&3));
    assert_eq!(ahead.next(), Some(1));
    assert_eq!(collect(ahead), vec![2, 3]);
}

#[test]
fn parts_are_copied() {
    assert_eq!(part(&[1, 2, 3, 4], 1, 3), vec![2, 3]);
    assert_eq!(part(&[1, 2], 2, 2), Vec::<u8>::new());
    assert!(matches_at(&[2, 3], &[1, 2, 3], 1));
    assert!(!matches_at(&[2, 3], &[1, 2, 4], 1));
}
