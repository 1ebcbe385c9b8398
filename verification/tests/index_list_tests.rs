use hc_admin::bytes::{copy_bytes, split};
use hc_admin::index_list::{parse_index, parse_index_list};

#[test]
fn split_cuts_at_every_mark() {
    assert_eq!(split(b"a,b,,c", b','), vec![b"a".to_vec(), b"b".to_vec(), b"".to_vec(), b"c".to_vec()]);
    assert_eq!(split(b"", b','), vec![Vec::<u8>::new()]);
    assert_eq!(split(b"a,", b','), vec![b"a".to_vec(), Vec::<u8>::new()]);
}

#[test]
fn copy_bytes_copies() {
    assert_eq!(copy_bytes(b"abc"), b"abc".to_vec());
    assert_eq!(copy_bytes(b""), Vec::<u8>::new());
}

#[test]
fn parse_index_reads_decimal() {
    assert_eq!(parse_index(b"0"), Some(0));
    assert_eq!(parse_index(b"42"), Some(42));
    assert_eq!(parse_index(b"007"), Some(7));
    assert_eq!(parse_index(usize::MAX.to_string().as_bytes()), Some(usize::MAX));
}

#[test]
fn parse_index_rejects_what_is_no_index() {
    assert_eq!(parse_index(b""), None);
    assert_eq!(parse_index(b"-1"), None);
    assert_eq!(parse_index(b"1a"), None);
    assert_eq!(parse_index(b" 1"), None);
    assert_eq!(parse_index(b"18446744073709551616"), None);
    assert_eq!(parse_index(b"99999999999999999999999"), None);
}

#[test]
fn parse_index_list_reads_comma_separated_indices() {
    assert_eq!(parse_index_list(b"0,2"), Some(vec![0, 2]));
    assert_eq!(parse_index_list(b"5"), Some(vec![5]));
    assert_eq!(parse_index_list(b"3,1,3"), Some(vec![3, 1, 3]));
}

#[test]
fn parse_index_list_of_empty_text_is_empty() {
    assert_eq!(parse_index_list(b""), Some(Vec::new()));
}

#[test]
fn parse_index_list_rejects_malformed_lists() {
    assert_eq!(parse_index_list(b","), None);
    assert_eq!(parse_index_list(b"0,"), None);
    assert_eq!(parse_index_list(b",1"), None);
    assert_eq!(parse_index_list(b"0,,2"), None);
    assert_eq!(parse_index_list(b"0,x"), None);
    assert_eq!(parse_index_list(b"0, 2"), None);
}
