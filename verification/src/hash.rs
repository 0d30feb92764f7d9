//! Blob hashes: SHA-384 in hexadecimal, and the check of a blob against its hash.

use vstd::prelude::*;
use vstd::utf8::is_ascii_chars;

use crate::text::{ascii_lower, lower_char, lower_text, same_chars, to_chars};

verus! {

/// The number of hexadecimal digits of a SHA-384 hash.
pub const HASH_HEX_LEN: usize = 96;

/// The SHA-384 digest of `data`, which `sha2` computes.
pub uninterp spec fn sha384(data: Seq<u8>) -> Seq<u8>;

/// The lowercase hexadecimal digit of a value below sixteen.
pub open spec fn hex_digit(n: int) -> char {
    if n < 10 {
        (n + 48) as char
    } else {
        (n + 87) as char
    }
}

/// `data` in lowercase hexadecimal, two digits for each byte.
pub open spec fn hex_text(data: Seq<u8>) -> Seq<char> {
    Seq::new(
        2 * data.len(),
        |i: int|
            hex_digit(
                if i % 2 == 0 {
                    data[i / 2] as int / 16
                } else {
                    data[i / 2] as int % 16
                },
            ),
    )
}

/// Whether `c` is a hexadecimal digit, in either case.
pub open spec fn is_hex_char(c: char) -> bool {
    '0' <= c <= '9' || 'a' <= c <= 'f' || 'A' <= c <= 'F'
}

/// Whether `s` consists of hexadecimal digits.
pub open spec fn is_hex_text(s: Seq<char>) -> bool {
    forall|i: int| 0 <= i < s.len() ==> is_hex_char(#[trigger] s[i])
}

/// The value of a hexadecimal digit.
pub open spec fn hex_value(c: char) -> int {
    if '0' <= c <= '9' {
        c as int - 48
    } else if 'a' <= c <= 'f' {
        c as int - 87
    } else {
        c as int - 55
    }
}

/// The bytes that the hexadecimal text `s` spells.
pub open spec fn hex_bytes(s: Seq<char>) -> Seq<u8> {
    Seq::new(
        s.len() / 2,
        |i: int| (hex_value(s[2 * i]) * 16 + hex_value(s[2 * i + 1])) as u8,
    )
}

/// The hash under which a blob is stored and asked for.
pub open spec fn blob_hash(data: Seq<u8>) -> Seq<char> {
    hex_text(sha384(data))
}

/// Whether `hash` is the hash of `data`, the case of its digits aside.
pub open spec fn hash_matches(data: Seq<u8>, hash: Seq<char>) -> bool {
    lower_text(hash) == blob_hash(data)
}

/// The blob does not have the hash that was claimed for it.
#[derive(Clone, Copy, Debug, PartialEq, Eq, Structural)]
pub struct HashMismatch;

/// Calls `sha2::Sha384::digest`: the result is the SHA-384 digest, 48 bytes.
#[verifier::external_body]
fn sha384_digest(data: &[u8]) -> (r: Vec<u8>)
    ensures
        r@ == sha384(data@),
        r@.len() == 48,
{
    <sha2::Sha384 as sha2::Digest>::digest(data).to_vec()
}

/// Calls `hex::encode`: the result is the lowercase hexadecimal text of `data`. The bound keeps
/// the text, twice as long as `data`, within what a `String` can hold.
#[verifier::external_body]
fn hex_encode(data: &[u8]) -> (r: String)
    requires
        data@.len() <= usize::MAX / 4,
    ensures
        r@ == hex_text(data@),
{
    hex::encode(data)
}

/// The error of `hex::decode`.
#[verifier::external_type_specification]
#[verifier::external_body]
pub struct ExFromHexError(hex::FromHexError);

/// Calls `hex::decode`: it succeeds exactly on an even number of hexadecimal digits, and then
/// gives the bytes that they spell.
#[verifier::external_body]
pub(crate) fn hex_decode(s: &str) -> (r: Result<Vec<u8>, hex::FromHexError>)
    ensures
        (r is Ok) == (s@.len() % 2 == 0 && is_hex_text(s@)),
        r matches Ok(v) ==> v@ == hex_bytes(s@),
{
    hex::decode(s)
}

/// Every digit of a hexadecimal text is a lowercase hexadecimal digit.
pub proof fn hex_text_is_lowercase_hex(data: Seq<u8>)
    ensures
        is_hex_text(hex_text(data)),
        lower_text(hex_text(data)) == hex_text(data),
{
    assert(lower_text(hex_text(data)) =~= hex_text(data));
}

/// Decoding the hexadecimal text of some bytes gives those bytes.
pub proof fn hex_round_trip(data: Seq<u8>)
    ensures
        hex_text(data).len() % 2 == 0,
        is_hex_text(hex_text(data)),
        hex_bytes(hex_text(data)) == data,
{
    assert(hex_bytes(hex_text(data)) =~= data);
}

proof fn lemma_lower_hex_char(c: char)
    requires
        is_hex_char(ascii_lower(c)),
    ensures
        is_hex_char(c),
        (c as u32) < 128,
{
}

/// A text that matches a blob consists of hexadecimal digits, as many as a hash has.
pub proof fn matching_hash_is_hex(data: Seq<u8>, hash: Seq<char>)
    requires
        hash_matches(data, hash),
    ensures
        is_hex_text(hash),
        hash.len() == 2 * sha384(data).len(),
{
    hex_text_is_lowercase_hex(sha384(data));
    assert forall|i: int| 0 <= i < hash.len() implies is_hex_char(#[trigger] hash[i]) by {
        assert(lower_text(hash)[i] == ascii_lower(hash[i]));
        lemma_lower_hex_char(hash[i]);
    }
}

/// Hexadecimal text is ASCII.
pub proof fn hex_text_is_ascii(s: Seq<char>)
    requires
        is_hex_text(s),
    ensures
        is_ascii_chars(s),
{
    assert forall|i: int| 0 <= i < s.len() implies 0 <= #[trigger] s[i] < 128 by {
        assert(is_hex_char(s[i]));
    }
}

/// Two texts that match one blob differ in case at most.
pub proof fn matching_hashes_agree(data: Seq<u8>, a: Seq<char>, b: Seq<char>)
    requires
        hash_matches(data, a),
    ensures
        hash_matches(data, b) <==> lower_text(b) == lower_text(a),
{
}

/// Whether `c` is a hexadecimal digit, in either case.
pub fn is_hex_digit(c: char) -> (r: bool)
    ensures
        r == is_hex_char(c),
{
    ('0' <= c && c <= '9') || ('a' <= c && c <= 'f') || ('A' <= c && c <= 'F')
}

/// Whether `s` consists of hexadecimal digits.
pub fn is_hex(s: &str) -> (r: bool)
    ensures
        r == is_hex_text(s@),
{
    let chars = to_chars(s);
    let mut i: usize = 0;
    while i < chars.len()
        invariant
            chars@ == s@,
            i <= chars@.len(),
            forall|j: int| 0 <= j < i ==> is_hex_char(#[trigger] s@[j]),
        decreases chars@.len() - i,
    {
        if !is_hex_digit(chars[i]) {
            assert(!is_hex_char(s@[i as int]));
            return false;
        }
        i += 1;
    }
    true
}

/// Whether the two texts are equal, the case of ASCII letters aside.
pub fn same_ignoring_case(a: &str, b: &str) -> (r: bool)
    ensures
        r == (lower_text(a@) == lower_text(b@)),
{
    let x = lower_chars(a);
    let y = lower_chars(b);
    same_chars(&x, &y)
}

fn lower_chars(s: &str) -> (r: Vec<char>)
    ensures
        r@ == lower_text(s@),
{
    let chars = to_chars(s);
    let mut out: Vec<char> = Vec::new();
    let mut i: usize = 0;
    while i < chars.len()
        invariant
            chars@ == s@,
            i <= chars@.len(),
            out@ == lower_text(s@).take(i as int),
        decreases chars@.len() - i,
    {
        out.push(lower_char(chars[i]));
        i += 1;
    }
    out
}

/// The hash of `data`: its SHA-384 digest in lowercase hexadecimal.
pub fn blob_hash_hex(data: &[u8]) -> (r: String)
    ensures
        r@ == blob_hash(data@),
        r@.len() == HASH_HEX_LEN,
{
    let digest = sha384_digest(data);
    hex_encode(&digest)
}

/// Checks `data` against the hash claimed for it, which may be in either case.
pub fn verify_blob_hash(data: &[u8], hash_hex: &str) -> (r: Result<(), HashMismatch>)
    ensures
        r is Ok <==> hash_matches(data@, hash_hex@),
        hash_matches(data@, hash_hex@) ==> is_hex_text(hash_hex@) && hash_hex@.len()
            == HASH_HEX_LEN,
{
    let actual = blob_hash_hex(data);
    proof {
        hex_text_is_lowercase_hex(sha384(data@));
        if hash_matches(data@, hash_hex@) {
            matching_hash_is_hex(data@, hash_hex@);
        }
    }
    if same_ignoring_case(hash_hex, actual.as_str()) {
        Ok(())
    } else {
        Err(HashMismatch)
    }
}

/// The hexadecimal digits are the ten digits and the first six letters in either case.
pub proof fn hexadecimal_digits(c: char)
    ensures
        is_hex_char(c) <==> "0123456789abcdefABCDEF"@.contains(c),
{
    reveal_strlit("0123456789abcdefABCDEF");
    let all = "0123456789abcdefABCDEF"@;
    if '0' <= c <= '9' {
        assert(all[c as int - 48] == c);
    }
    if 'a' <= c <= 'f' {
        assert(all[c as int - 87] == c);
    }
    if 'A' <= c <= 'F' {
        assert(all[c as int - 49] == c);
    }
}

/// Text is hexadecimal exactly if each of its characters is one of the digits.
pub proof fn hexadecimal_text(s: Seq<char>)
    ensures
        is_hex_text(s) <==> forall|i: int|
            0 <= i < s.len() ==> "0123456789abcdefABCDEF"@.contains(#[trigger] s[i]),
{
    assert forall|i: int| 0 <= i < s.len() implies is_hex_char(#[trigger] s[i])
        == "0123456789abcdefABCDEF"@.contains(s[i]) by {
        hexadecimal_digits(s[i]);
    }
}

/// Each byte is written as two digits, the one for its sixteens first.
pub proof fn two_digits_for_each_byte(data: Seq<u8>, i: int)
    requires
        0 <= i < data.len(),
    ensures
        hex_text(data).len() == 2 * data.len(),
        hex_text(data)[2 * i] == "0123456789abcdef"@[data[i] as int / 16],
        hex_text(data)[2 * i + 1] == "0123456789abcdef"@[data[i] as int % 16],
{
    reveal_strlit("0123456789abcdef");
    assert((2 * i) / 2 == i && (2 * i + 1) / 2 == i);
    assert((2 * i) % 2 == 0 && (2 * i + 1) % 2 == 1);
}

/// Writing the bytes that hexadecimal text spells gives that text in lowercase.
pub proof fn hex_bytes_round_trip(s: Seq<char>)
    requires
        is_hex_text(s),
        s.len() % 2 == 0,
    ensures
        hex_text(hex_bytes(s)) == lower_text(s),
{
    assert forall|i: int| 0 <= i < s.len() implies #[trigger] hex_text(hex_bytes(s))[i]
        == ascii_lower(s[i]) by {
        let k = i / 2;
        assert(is_hex_char(s[2 * k]) && is_hex_char(s[2 * k + 1]));
        let byte = hex_value(s[2 * k]) * 16 + hex_value(s[2 * k + 1]);
        assert(0 <= byte < 256);
        assert(hex_bytes(s)[k] == byte as u8);
        assert(byte / 16 == hex_value(s[2 * k]) && byte % 16 == hex_value(s[2 * k + 1]));
        assert(i == 2 * k || i == 2 * k + 1);
    }
    assert(hex_text(hex_bytes(s)) =~= lower_text(s));
}

/// A text is the hash of a blob exactly if it is hexadecimal and spells the blob's SHA-384 digest.
/// So every blob, however large, has the hash that its digest is written as.
pub proof fn hash_spells_the_digest(data: Seq<u8>, hash: Seq<char>)
    ensures
        hash_matches(data, hash) <==> is_hex_text(hash) && hash.len() % 2 == 0 && hex_bytes(hash)
            == sha384(data),
        blob_hash(data) == hex_text(sha384(data)),
        hash_matches(data, hex_text(sha384(data))),
{
    hex_text_is_lowercase_hex(sha384(data));
    if hash_matches(data, hash) {
        matching_hash_is_hex(data, hash);
        hex_bytes_round_trip(hash);
        hex_round_trip(sha384(data));
        hex_round_trip(hex_bytes(hash));
    }
    if is_hex_text(hash) && hash.len() % 2 == 0 && hex_bytes(hash) == sha384(data) {
        hex_bytes_round_trip(hash);
    }
}

} // verus!
