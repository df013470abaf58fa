use repo_executor::listing::parse_name_status;
use repo_executor::plan::ChangeKind;

#[test]
fn listing_decodes_statuses_and_paths() {
    let text = "M\tsrc/x.txt\nA\tREADME.md\nD\told.txt\nR100\tfrom.txt\tto.txt\n";
    let entries = parse_name_status(text).expect("well-formed listing");
    assert_eq!(entries.len(), 4);
    assert_eq!(entries[0].path, "src/x.txt");
    assert_eq!(entries[0].kind, ChangeKind::Modified);
    assert_eq!(entries[1].path, "README.md");
    assert_eq!(entries[1].kind, ChangeKind::Added);
    assert_eq!(entries[2].path, "old.txt");
    assert_eq!(entries[2].kind, ChangeKind::Deleted);
    assert_eq!(entries[3].path, "to.txt", "a rename reports the new path");
    assert_eq!(entries[3].kind, ChangeKind::Renamed);
}

#[test]
fn listing_without_trailing_newline_still_decodes() {
    let entries = parse_name_status("C75\ta.css\tb.css").expect("well-formed listing");
    assert_eq!(entries.len(), 1);
    assert_eq!(entries[0].path, "b.css");
    assert_eq!(entries[0].kind, ChangeKind::Renamed);
}

#[test]
fn empty_listing_decodes_to_no_entries() {
    let entries = parse_name_status("").expect("an empty diff is legal");
    assert!(entries.is_empty());
}

#[test]
fn unknown_status_letters_count_as_modifications() {
    let entries = parse_name_status("T\tlinkish\n").expect("well-formed listing");
    assert_eq!(entries[0].kind, ChangeKind::Modified);
}

#[test]
fn malformed_listing_is_rejected() {
    assert!(parse_name_status("no tab here\n").is_none());
    assert!(parse_name_status("\tpath-without-status\n").is_none());
    assert!(parse_name_status("M\tok.txt\n\n").is_none());
}
