use hc_admin::error::HcError;
use hc_admin::manifest::{are_single_lines, is_single_line, parse_manifest, render_manifest};
use hc_admin::registry::{first_invalid, names_index, ManifestSource, Registry};

fn p(text: &str) -> Vec<u8> {
    text.as_bytes().to_vec()
}

fn three() -> Registry {
    let mut registry = Registry::new();
    registry.append(p("/tmp/a"));
    registry.append(p("/tmp/b"));
    registry.append(p("/tmp/c"));
    registry
}

#[test]
fn render_writes_one_path_per_line() {
    let text = render_manifest(&vec![p("/tmp/a"), p("/tmp/b")]);
    assert_eq!(text, p("/tmp/a\n/tmp/b\n"));
}

#[test]
fn render_of_nothing_is_empty() {
    assert_eq!(render_manifest(&Vec::new()), Vec::<u8>::new());
}

#[test]
fn parse_reads_lines_in_order() {
    assert_eq!(parse_manifest(b"/tmp/a\n/tmp/b\n"), vec![p("/tmp/a"), p("/tmp/b")]);
}

#[test]
fn parse_takes_last_line_without_line_feed() {
    assert_eq!(parse_manifest(b"/tmp/a\n/tmp/b"), vec![p("/tmp/a"), p("/tmp/b")]);
}

#[test]
fn parse_of_empty_text_is_empty() {
    assert_eq!(parse_manifest(b""), Vec::<Vec<u8>>::new());
}

#[test]
fn parse_keeps_empty_lines() {
    assert_eq!(parse_manifest(b"\n/x\n\n"), vec![p(""), p("/x"), p("")]);
}

#[test]
fn manifest_round_trip() {
    let entries = vec![p("/tmp/KOXgKVLBVvoxe8iKD4iSS"), p("/tmp/m8VHwwt93Uh-nF-vr6nf6"), p("")];
    assert_eq!(parse_manifest(&render_manifest(&entries)), entries);
}

#[test]
fn append_then_list_has_path_at_highest_index() {
    let mut registry = three();
    let index = registry.append(p("/tmp/d"));
    assert_eq!(index, 3);
    let listing = registry.list();
    assert_eq!(listing.len(), 4);
    assert_eq!(listing[3], (3, p("/tmp/d")));
    assert_eq!(listing[0], (0, p("/tmp/a")));
    let reread = Registry::from_manifest(&registry.to_manifest());
    assert_eq!(reread, registry);
    assert_eq!(reread.list(), listing);
}

#[test]
fn append_does_not_deduplicate() {
    let mut registry = Registry::new();
    assert_eq!(registry.append(p("/tmp/a")), 0);
    assert_eq!(registry.append(p("/tmp/a")), 1);
    assert_eq!(registry.len(), 2);
    assert_eq!(registry.list(), vec![(0, p("/tmp/a")), (1, p("/tmp/a"))]);
}

#[test]
fn remove_shifts_later_indices_down() {
    let mut registry = three();
    assert_eq!(registry.remove(&[1]), Ok(()));
    assert_eq!(registry.list(), vec![(0, p("/tmp/a")), (1, p("/tmp/c"))]);
}

#[test]
fn remove_several_keeps_order() {
    let mut registry = three();
    registry.append(p("/tmp/d"));
    assert_eq!(registry.remove(&[2, 0, 2]), Ok(()));
    assert_eq!(registry.list(), vec![(0, p("/tmp/b")), (1, p("/tmp/d"))]);
}

#[test]
fn remove_is_all_or_nothing() {
    let mut registry = three();
    let before = registry.to_manifest();
    assert_eq!(registry.remove(&[0, 7]), Err(HcError::InvalidIndex { index: 7 }));
    assert_eq!(registry.to_manifest(), before);
    assert_eq!(registry, three());
}

#[test]
fn remove_reports_first_invalid_index() {
    let mut registry = three();
    assert_eq!(registry.remove(&[9, 3]), Err(HcError::InvalidIndex { index: 9 }));
    assert_eq!(registry.remove(&[3]), Err(HcError::InvalidIndex { index: 3 }));
}

#[test]
fn remove_of_nothing_changes_nothing() {
    let mut registry = three();
    assert_eq!(registry.remove(&[]), Ok(()));
    assert_eq!(registry, three());
}

#[test]
fn remove_all_empties_registry() {
    let mut registry = three();
    registry.remove_all();
    assert!(registry.is_empty());
    assert_eq!(registry.to_manifest(), Vec::<u8>::new());
}

#[test]
fn open_missing_manifest_is_empty_registry() {
    let opened = Registry::open(&ManifestSource::Missing);
    assert_eq!(opened, Ok(Registry::new()));
}

#[test]
fn open_unreadable_manifest_is_io_error() {
    assert_eq!(Registry::open(&ManifestSource::Unreadable), Err(HcError::Io));
}

#[test]
fn open_text_reads_entries() {
    let opened = Registry::open(&ManifestSource::Text(p("/tmp/a\n/tmp/b\n/tmp/c\n")));
    assert_eq!(opened, Ok(three()));
}

#[test]
fn get_returns_path_or_nothing() {
    let registry = three();
    assert_eq!(registry.get(2), Some(p("/tmp/c")));
    assert_eq!(registry.get(3), None);
}

#[test]
fn names_index_finds_members() {
    assert!(names_index(&[4, 2], 2));
    assert!(!names_index(&[4, 2], 3));
    assert!(!names_index(&[], 0));
}

#[test]
fn first_invalid_finds_first_out_of_bounds() {
    assert_eq!(first_invalid(&[0, 5, 9], 3), Some(5));
    assert_eq!(first_invalid(&[0, 2], 3), None);
    assert_eq!(first_invalid(&[0], 0), Some(0));
}

#[test]
fn single_line_holds_no_line_feed() {
    assert!(is_single_line(b"/tmp/a"));
    assert!(is_single_line(b""));
    assert!(is_single_line(b"/tmp/with space\r"));
    assert!(!is_single_line(b"\n"));
    assert!(!is_single_line(b"/tmp/a\n"));
    assert!(!is_single_line(b"/tmp\n/a"));
}

#[test]
fn single_lines_are_tested_one_by_one() {
    assert!(are_single_lines(&vec![p("/a"), p("/b")]));
    assert!(are_single_lines(&Vec::new()));
    assert!(!are_single_lines(&vec![p("/a"), p("/b\n"), p("/c")]));
}

#[test]
fn path_with_line_feed_would_read_back_as_two() {
    let text = render_manifest(&vec![p("\n")]);
    assert_eq!(parse_manifest(&text).len(), 2);
    assert!(!is_single_line(b"\n"));
}

#[test]
fn manifest_of_a_registry_reads_back_as_the_registry() {
    let registry = three();
    assert_eq!(Registry::from_manifest(&registry.to_manifest()), registry);
    let read = Registry::from_manifest(b"/x\n\n/y");
    assert_eq!(Registry::from_manifest(&read.to_manifest()), read);
    assert_eq!(read.list(), vec![(0, p("/x")), (1, p("")), (2, p("/y"))]);
}
