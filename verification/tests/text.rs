use copilot_client::text::{
    blank, contains, copy_range, drop_blanks, find, occurs_at, same_bytes, skip_blanks,
};

#[test]
fn find_returns_the_first_place() {
    assert_eq!(find(b"abcabc", b"bc", 0), Some(1));
    assert_eq!(find(b"abcabc", b"bc", 1), Some(1));
    assert_eq!(find(b"abcabc", b"bc", 2), Some(4));
    assert_eq!(find(b"abcabc", b"bc", 5), None);
    assert_eq!(find(b"abcabc", b"bc", 99), None);
    assert_eq!(find(b"abc", b"abcd", 0), None);
    assert_eq!(find(b"aaa", b"aa", 0), Some(0));
    assert_eq!(find(b"aaa", b"aa", 1), Some(1));
    assert_eq!(find(b"abc", b"", 0), Some(0));
    assert_eq!(find(b"abc", b"", 3), Some(3));
    assert_eq!(find(b"abc", b"", 4), None);
    assert_eq!(find(b"", b"", 0), Some(0));
    assert_eq!(find(b"x\n\ndata: y", b"\n\ndata: ", 0), Some(1));
}

#[test]
fn occurs_at_looks_at_one_place() {
    assert!(occurs_at(b"abcabc", b"abc", 0));
    assert!(occurs_at(b"abcabc", b"abc", 3));
    assert!(!occurs_at(b"abcabc", b"abc", 1));
    assert!(!occurs_at(b"abcabc", b"abc", 4));
    assert!(!occurs_at(b"abcabc", b"abc", usize::MAX));
    assert!(occurs_at(b"abc", b"", 3));
    assert!(!occurs_at(b"abc", b"", 4));
}

#[test]
fn contains_looks_everywhere() {
    assert!(contains(b"an authorization_pending answer", b"authorization_pending"));
    assert!(!contains(b"authorization_pendin", b"authorization_pending"));
    assert!(contains(b"", b""));
    assert!(!contains(b"", b"a"));
}

#[test]
fn blanks_are_the_four_of_json() {
    for byte in 0..=255u8 {
        assert_eq!(blank(byte), byte == b' ' || byte == b'\t' || byte == b'\n' || byte == b'\r');
    }
}

#[test]
fn blanks_are_skipped_at_both_ends() {
    let text = b" \t\r\nab c\n \n";
    assert_eq!(skip_blanks(text, 0, text.len()), 4);
    assert_eq!(drop_blanks(text, 0, text.len()), 8);
    assert_eq!(skip_blanks(text, 4, 8), 4);
    assert_eq!(drop_blanks(text, 4, 8), 8);
    assert_eq!(skip_blanks(text, 6, 8), 7);
    assert_eq!(skip_blanks(text, 8, text.len()), text.len());
    assert_eq!(drop_blanks(text, 8, text.len()), 8);
    assert_eq!(skip_blanks(text, 0, 3), 3);
    assert_eq!(drop_blanks(text, 0, 3), 0);
    assert_eq!(skip_blanks(b"", 0, 0), 0);
}

#[test]
fn bytes_are_compared_and_copied() {
    assert!(same_bytes(b"[DONE]", b"[DONE]"));
    assert!(!same_bytes(b"[DONE]", b"[DONE"));
    assert!(!same_bytes(b"[DONE]", b"[done]"));
    assert!(same_bytes(b"", b""));
    assert_eq!(copy_range(b"abcdef", 2, 5), b"cde");
    assert_eq!(copy_range(b"abcdef", 3, 3), b"");
    assert_eq!(copy_range(b"abcdef", 0, 6), b"abcdef");
}
