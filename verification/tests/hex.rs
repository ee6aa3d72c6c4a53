use vauth::hex::{aaguid_unit_name, find_by_prefix, hex_id, id_starts_with, PrefixError};

#[test]
fn hex_is_lower_case_two_digits_per_byte() {
    assert_eq!(hex_id(&[0x00, 0x0f, 0xa0, 0xff, 0x8d]), "000fa0ff8d");
    assert_eq!(hex_id(&[]), "");
}

#[test]
fn aaguid_unit() {
    let mut a = [0u8; 16];
    a[15] = 0xab;
    assert_eq!(aaguid_unit_name(&a), "AAGUID:000000000000000000000000000000ab");
}

#[test]
fn prefix_lookup() {
    let ids = vec![vec![0x8d, 0x94, 0x58], vec![0x8d, 0x11], vec![0x12]];
    assert_eq!(find_by_prefix(&ids, "8D94"), Ok(0));
    assert_eq!(find_by_prefix(&ids, "12"), Ok(2));
    assert_eq!(find_by_prefix(&ids, "8d"), Err(PrefixError::Ambiguous(vec![0, 1])));
    assert_eq!(find_by_prefix(&ids, ""), Err(PrefixError::Ambiguous(vec![0, 1, 2])));
    assert_eq!(find_by_prefix(&ids, "ff"), Err(PrefixError::NoMatch));
    assert_eq!(find_by_prefix(&ids, "8d9458aa"), Err(PrefixError::NoMatch));
    assert_eq!(find_by_prefix(&vec![], "1"), Err(PrefixError::NoMatch));
}

#[test]
fn starts_with_is_exact() {
    assert!(id_starts_with(&[0xab, 0xcd], "abc"));
    assert!(!id_starts_with(&[0xab, 0xcd], "ABC"));
    assert!(!id_starts_with(&[0xab], "abc"));
}

#[test]
fn short_prefix_names_a_credential() {
    let ids = vec![vec![0x8d, 0x94, 0x58, 0x61, 0xf3, 0xa4], vec![0x12, 0x34]];
    assert_eq!(find_by_prefix(&ids, "8d94"), Ok(0));
}
