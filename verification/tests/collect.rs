use imgfetch::pending::InputAction;
use imgfetch::pending::PendingList;

#[test]
fn adds_a_plain_identifier() {
    let mut p = PendingList::new();
    let a = p.process_line("12345_p0.jpg\n");
    assert!(matches!(a, InputAction::Added));
    assert_eq!(p.len(), 1);
    assert_eq!(p.get(0).as_str(), "12345_p0.jpg");
}

#[test]
fn trims_surrounding_whitespace() {
    let mut p = PendingList::new();
    let a = p.process_line("  img.jpg \t\r\n");
    assert!(matches!(a, InputAction::Added));
    assert_eq!(p.get(0).as_str(), "img.jpg");
}

#[test]
fn ignores_an_interactive_duplicate() {
    let mut p = PendingList::new();
    assert!(matches!(p.process_line("abc\n"), InputAction::Added));
    let again = p.process_line("abc\n");
    assert!(matches!(again, InputAction::Ignore));
    assert_eq!(p.len(), 1);
}

#[test]
fn ignores_an_empty_line() {
    let mut p = PendingList::new();
    assert!(matches!(p.process_line("\n"), InputAction::Ignore));
    assert!(matches!(p.process_line("   \n"), InputAction::Ignore));
    assert_eq!(p.len(), 0);
}

#[test]
fn terminators_end_collection_case_insensitively() {
    let mut p = PendingList::new();
    assert!(matches!(p.process_line("continue\n"), InputAction::Finish));
    assert!(matches!(p.process_line("DOWNLOAD\n"), InputAction::Finish));
    assert!(matches!(p.process_line("Continue\n"), InputAction::Finish));
    assert!(matches!(p.process_line(" download \n"), InputAction::Finish));
    assert_eq!(p.len(), 0);
}

#[test]
fn file_line_asks_for_a_bulk_load() {
    let mut p = PendingList::new();
    let a = p.process_line("file:url.txt\n");
    match a {
        InputAction::ReadFile(path) => assert_eq!(path.as_str(), "url.txt"),
        _ => panic!("expected a bulk-load request"),
    }
    assert_eq!(p.len(), 0);
}

#[test]
fn bulk_load_deduplicates_within_one_load() {
    let mut p = PendingList::new();
    let n = p.merge_file_lines("a\r\nb\r\na");
    assert_eq!(n, 2);
    assert_eq!(p.len(), 2);
    assert_eq!(p.get(0).as_str(), "a");
    assert_eq!(p.get(1).as_str(), "b");
}

#[test]
fn bulk_load_keeps_empty_lines_once() {
    let mut p = PendingList::new();
    let n = p.merge_file_lines("a\r\n\r\nb\r\n");
    // pieces are "a", "", "b", "" and the second "" is a repeat
    assert_eq!(n, 3);
    assert_eq!(p.get(0).as_str(), "a");
    assert_eq!(p.get(1).as_str(), "");
    assert_eq!(p.get(2).as_str(), "b");
}

#[test]
fn bulk_load_may_reintroduce_a_pending_identifier() {
    let mut p = PendingList::new();
    assert!(matches!(p.process_line("a\n"), InputAction::Added));
    let n = p.merge_file_lines("a\r\nb");
    assert_eq!(n, 2);
    // no cross-check against the existing list: "a" is now pending twice
    assert_eq!(p.len(), 3);
    assert_eq!(p.get(0).as_str(), "a");
    assert_eq!(p.get(1).as_str(), "a");
    assert_eq!(p.get(2).as_str(), "b");
}

#[test]
fn empty_list_yields_the_error() {
    let p = PendingList::new();
    match p.into_targets() {
        Err(m) => assert_eq!(m.as_str(), "No URL to download"),
        Ok(_) => panic!("an empty list must be refused"),
    }
}

#[test]
fn collected_identifiers_come_out_in_order() {
    let mut p = PendingList::new();
    p.process_line("one\n");
    p.process_line("two\n");
    let v = p.into_targets().unwrap();
    assert_eq!(v.len(), 2);
    assert_eq!(v[0].as_str(), "one");
    assert_eq!(v[1].as_str(), "two");
}
