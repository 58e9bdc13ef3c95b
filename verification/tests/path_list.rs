use lcli::path_list::{add, bytes_eq, contains_entry, remove};

#[test]
fn add_is_idempotent() {
    let list = b"C:\\A;C:\\B".to_vec();
    let entry = b"C:\\Tools";
    let (once, changed_once) = add(&list, entry);
    assert!(changed_once);
    let (twice, changed_twice) = add(&once, entry);
    assert!(!changed_twice);
    assert_eq!(once, twice);
}

#[test]
fn add_present_case_insensitively_is_a_no_op() {
    let list = b"C:\\A;C:\\B".to_vec();
    let (out, changed) = add(&list, b"c:\\a");
    assert_eq!(out, list);
    assert!(!changed);
}

#[test]
fn add_to_empty_list_has_no_leading_delimiter() {
    let (out, changed) = add(b"", b"C:\\Tools");
    assert_eq!(out, b"C:\\Tools".to_vec());
    assert!(changed);
}

#[test]
fn add_after_trailing_delimiter_adds_no_second_one() {
    let (out, changed) = add(b"C:\\A;", b"C:\\B");
    assert_eq!(out, b"C:\\A;C:\\B".to_vec());
    assert!(changed);
}

#[test]
fn remove_prunes_empty_segments() {
    let (out, changed) = remove(b"C:\\A;;C:\\B", b"C:\\A");
    assert_eq!(out, b"C:\\B".to_vec());
    assert!(changed);
}

#[test]
fn remove_matches_case_insensitively() {
    let (out, changed) = remove(b"C:\\A;C:\\B;c:\\a", b"C:\\a");
    assert_eq!(out, b"C:\\B".to_vec());
    assert!(changed);
}

#[test]
fn remove_of_absent_entry_reports_no_change() {
    let (out, changed) = remove(b"C:\\A;C:\\B", b"C:\\C");
    assert_eq!(out, b"C:\\A;C:\\B".to_vec());
    assert!(!changed);
}

#[test]
fn remove_from_empty_list_is_empty() {
    let (out, changed) = remove(b"", b"C:\\A");
    assert_eq!(out, b"".to_vec());
    assert!(!changed);
}

#[test]
fn remove_after_add_round_trips() {
    let list = b"C:\\A;C:\\B".to_vec();
    let entry = b"C:\\Tools";
    let (added, _) = add(&list, entry);
    assert_eq!(added, b"C:\\A;C:\\B;C:\\Tools".to_vec());
    let (removed, changed) = remove(&added, entry);
    assert_eq!(removed, list);
    assert!(changed);
}

#[test]
fn contains_is_case_insensitive() {
    assert!(contains_entry(b"C:\\A;C:\\B", b"c:\\b"));
    assert!(!contains_entry(b"C:\\A;C:\\B", b"C:\\C"));
    assert!(!contains_entry(b"C:\\AB;C:\\B", b"C:\\A"));
}

#[test]
fn bytes_eq_is_exact() {
    assert!(bytes_eq(b"abc", b"abc"));
    assert!(!bytes_eq(b"abc", b"abd"));
    assert!(!bytes_eq(b"abc", b"Abc"));
    assert!(!bytes_eq(b"abc", b"ab"));
}
