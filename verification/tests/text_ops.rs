use ormos::text::{bytes_eq, ends_with, matches_suffix, parse_u16, starts_with, trim_copy};

#[test]
fn ports_parse_in_decimal() {
    assert_eq!(parse_u16(b"0"), Some(0));
    assert_eq!(parse_u16(b"80"), Some(80));
    assert_eq!(parse_u16(b"0080"), Some(80));
    assert_eq!(parse_u16(b"+8443"), Some(8443));
    assert_eq!(parse_u16(b"65535"), Some(65535));
    assert_eq!(parse_u16(b"65536"), None);
    assert_eq!(parse_u16(b"999999"), None);
    assert_eq!(parse_u16(b""), None);
    assert_eq!(parse_u16(b"+"), None);
    assert_eq!(parse_u16(b"4 4"), None);
    assert_eq!(parse_u16(b"-1"), None);
}

#[test]
fn trimming_strips_ascii_whitespace_on_both_ends() {
    assert_eq!(trim_copy(b"  example.com\r\n"), b"example.com".to_vec());
    assert_eq!(trim_copy(b"\t\x0b\x0c"), Vec::<u8>::new());
    assert_eq!(trim_copy(b"a b"), b"a b".to_vec());
}

#[test]
fn affix_tests_compare_byte_for_byte() {
    assert!(bytes_eq(b"abc", b"abc"));
    assert!(!bytes_eq(b"abc", b"abd"));
    assert!(starts_with(b"example.com", b"exam"));
    assert!(!starts_with(b"ex", b"exam"));
    assert!(ends_with(b"api.svc.local", b"svc.local"));
    assert!(!ends_with(b"api.svc.local", b"svc.remote"));
    let list = vec![b"allowed.net".to_vec(), b"svc.local".to_vec()];
    assert!(matches_suffix(&list, b"a.allowed.net"));
    assert!(!matches_suffix(&list, b"allowed.org"));
}
