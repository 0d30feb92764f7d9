use lbry_superpeer::hash::{
    blob_hash_hex, is_hex, is_hex_digit, same_ignoring_case, verify_blob_hash, HashMismatch,
    HASH_HEX_LEN,
};

const ABC: &str = "cb00753f45a35e8bb5a03d699ac65007272c32ab0eded1631a8b605a43ff5bed8086072ba1e7cc2358baeca134c825a7";
const EMPTY: &str = "38b060a751ac96384cd9327eb1b1e36a21fdb71114be07434c0cc7bf63f6e1da274edebfe76f65fbd51ad2f14898b95b";

#[test]
fn known_digests() {
    assert_eq!(blob_hash_hex(b"abc"), ABC);
    assert_eq!(blob_hash_hex(b""), EMPTY);
    assert_eq!(blob_hash_hex(b"abc").len(), HASH_HEX_LEN);
}

#[test]
fn hash_is_checked_in_either_case() {
    assert_eq!(verify_blob_hash(b"abc", ABC), Ok(()));
    assert_eq!(verify_blob_hash(b"abc", &ABC.to_uppercase()), Ok(()));
    let mixed: String = ABC
        .chars()
        .enumerate()
        .map(|(i, c)| if i % 2 == 0 { c.to_ascii_uppercase() } else { c })
        .collect();
    assert_eq!(verify_blob_hash(b"abc", &mixed), Ok(()));
}

#[test]
fn wrong_hash_is_a_mismatch() {
    assert_eq!(verify_blob_hash(b"abd", ABC), Err(HashMismatch));
    assert_eq!(verify_blob_hash(b"abc", EMPTY), Err(HashMismatch));
    assert_eq!(verify_blob_hash(b"abc", ""), Err(HashMismatch));
    assert_eq!(verify_blob_hash(b"abc", &ABC[..95]), Err(HashMismatch));
    assert_eq!(verify_blob_hash(b"abc", "not hexadecimal"), Err(HashMismatch));
}

#[test]
fn hexadecimal_digits() {
    for c in '\0'..=char::MAX {
        assert_eq!(is_hex_digit(c), c.is_ascii_hexdigit());
    }
    assert!(is_hex("0123456789abcdefABCDEF"));
    assert!(is_hex(""));
    assert!(!is_hex("12g4"));
    assert!(!is_hex("é"));
}

#[test]
fn case_is_ignored_for_ascii_only() {
    assert!(same_ignoring_case("AbC9", "aBc9"));
    assert!(!same_ignoring_case("abc", "abd"));
    assert!(!same_ignoring_case("abc", "ab"));
    assert!(!same_ignoring_case("É", "é"));
}
