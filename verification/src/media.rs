//! Assembled media: the names under which it is saved and served, and its content types.

use vstd::prelude::*;
use vstd::utf8::{
    decode_utf8, decode_utf8_encode_utf8, encode_utf8, encode_utf8_decode_utf8,
    encode_utf8_valid_utf8, is_ascii_chars, is_ascii_chars_encode_utf8,
    is_char_boundary, is_char_boundary_iff_not_is_continuation_byte, valid_utf8, valid_utf8_split,
};

use crate::hash::{
    hex_bytes, hex_bytes_round_trip, hex_decode, hex_round_trip, hex_text, hex_text_is_ascii,
    is_hex_char, is_hex_text,
};
use crate::text::{
    ends_behind_a_front, ends_with, lower_text, occurs_at, occurs_in, text_contains,
    text_ends_with, text_has_char, to_chars,
};

verus! {

/// The text of bytes that are not UTF-8, which `String::from_utf8_lossy` computes.
pub uninterp spec fn utf8_lossy(bytes: Seq<u8>) -> Seq<char>;

/// The text of some bytes: the text that they encode if they are UTF-8.
pub open spec fn lossy_text(bytes: Seq<u8>) -> Seq<char> {
    if valid_utf8(bytes) {
        decode_utf8(bytes)
    } else {
        utf8_lossy(bytes)
    }
}

/// Calls `String::from_utf8_lossy`: UTF-8 gives the text that it encodes; what stands for other
/// bytes has the name `utf8_lossy`.
#[verifier::external_body]
fn from_utf8_lossy(bytes: &[u8]) -> (r: String)
    ensures
        valid_utf8(bytes@) ==> r@ == decode_utf8(bytes@),
        !valid_utf8(bytes@) ==> r@ == utf8_lossy(bytes@),
{
    String::from_utf8_lossy(bytes).into_owned()
}

/// The name of a file that a stream descriptor gives in hexadecimal, and a stock name where that
/// is not hexadecimal.
pub open spec fn stream_filename(filename_hex: Seq<char>) -> Seq<char> {
    if filename_hex.len() % 2 == 0 && is_hex_text(filename_hex) {
        lossy_text(hex_bytes(filename_hex))
    } else {
        "assembled.bin"@
    }
}

/// Whether `hash` can be cut after its first sixteen bytes.
pub open spec fn can_shorten(hash: Seq<char>) -> bool {
    encode_utf8(hash).len() <= 16 || is_char_boundary(encode_utf8(hash), 16)
}

/// The first sixteen bytes of a hash, or all of it if it is shorter.
pub open spec fn short_hash(hash: Seq<char>) -> Seq<char> {
    if encode_utf8(hash).len() <= 16 {
        hash
    } else {
        decode_utf8(encode_utf8(hash).subrange(0, 16))
    }
}

/// `c`, and an underscore for a path separator.
pub open spec fn without_separator(c: char) -> char {
    if c == '/' || c == '\\' {
        '_'
    } else {
        c
    }
}

/// `name` with an underscore for every path separator.
pub open spec fn without_separators(name: Seq<char>) -> Seq<char> {
    Seq::new(name.len(), |i: int| without_separator(name[i]))
}

/// The name under which an assembled stream is saved.
pub open spec fn media_name(sd_hash: Seq<char>, filename: Seq<char>) -> Seq<char> {
    short_hash(sd_hash).push('_') + without_separators(filename)
}

/// Whether a name is refused: it holds two dots in a row or a path separator.
pub open spec fn is_bad_media_name(name: Seq<char>) -> bool {
    occurs_in(seq!['.', '.'], name) || name.contains('/') || name.contains('\\')
}

/// The content type of a file, by the ending of its name.
pub open spec fn content_type_of(name: Seq<char>) -> Seq<char> {
    if ends_with(name, ".wav"@) {
        "audio/wav"@
    } else if ends_with(name, ".mp4"@) {
        "video/mp4"@
    } else if ends_with(name, ".webm"@) {
        "video/webm"@
    } else if ends_with(name, ".mp3"@) {
        "audio/mpeg"@
    } else {
        "application/octet-stream"@
    }
}

/// The name is not one of a saved file.
#[derive(Clone, Copy, Debug, PartialEq, Eq, Structural)]
pub struct BadMediaName;

impl BadMediaName {
    /// The text of the error.
    pub fn message(self) -> (r: &'static str)
        ensures
            r@ == "bad name"@,
    {
        "bad name"
    }
}

/// The name of a file that a stream descriptor gives in hexadecimal.
pub fn decode_filename(filename_hex: &str) -> (r: String)
    ensures
        r@ == stream_filename(filename_hex@),
{
    match hex_decode(filename_hex) {
        Ok(bytes) => from_utf8_lossy(bytes.as_slice()),
        Err(_) => "assembled.bin".to_owned(),
    }
}

/// The first sixteen bytes of a hash, or all of it if it is shorter.
pub fn shorten_hash(hash: &str) -> (r: &str)
    requires
        can_shorten(hash@),
    ensures
        r@ == short_hash(hash@),
{
    if hash.as_bytes().len() <= 16 {
        hash
    } else {
        let (front, _) = hash.split_at(16);
        proof {
            encode_utf8_decode_utf8(front@);
        }
        front
    }
}

/// The name under which an assembled stream is saved: the start of its hash, and its file name
/// with no path separators left.
pub fn media_file_name(sd_hash: &str, filename: &str) -> (r: String)
    requires
        can_shorten(sd_hash@),
    ensures
        r@ == media_name(sd_hash@, filename@),
{
    let mut out = shorten_hash(sd_hash).to_owned();
    out.push('_');
    out.append(replace_separators(filename).as_str());
    out
}

/// `name` with an underscore for every path separator.
pub fn replace_separators(name: &str) -> (r: String)
    ensures
        r@ == without_separators(name@),
{
    let mut out = String::new();
    let chars = to_chars(name);
    let mut i: usize = 0;
    while i < chars.len()
        invariant
            chars@ == name@,
            i <= chars@.len(),
            out@ == without_separators(name@).take(i as int),
        decreases chars@.len() - i,
    {
        let c: char = chars[i];
        out.push(if c == '/' || c == '\\' { '_' } else { c });
        assert(out@ =~= without_separators(name@).take(i + 1));
        i += 1;
    }
    assert(without_separators(name@).take(i as int) =~= without_separators(name@));
    out
}

/// The content type of a file, by the ending of its name.
pub fn content_type(name: &str) -> (r: &'static str)
    ensures
        r@ == content_type_of(name@),
{
    if text_ends_with(name, ".wav") {
        "audio/wav"
    } else if text_ends_with(name, ".mp4") {
        "video/mp4"
    } else if text_ends_with(name, ".webm") {
        "video/webm"
    } else if text_ends_with(name, ".mp3") {
        "audio/mpeg"
    } else {
        "application/octet-stream"
    }
}

/// Checks a name that media is asked for by, and gives the content type to serve it with.
pub fn check_media_name(name: &str) -> (r: Result<&'static str, BadMediaName>)
    ensures
        r is Err <==> is_bad_media_name(name@),
        r matches Ok(ctype) ==> ctype@ == content_type_of(name@),
{
    proof {
        reveal_strlit("..");
        assert(".."@ =~= seq!['.', '.']);
    }
    if text_contains(name, "..") || text_has_char(name, '/') || text_has_char(name, '\\') {
        Err(BadMediaName)
    } else {
        Ok(content_type(name))
    }
}

/// ASCII text can be cut anywhere.
pub proof fn ascii_can_be_shortened(hash: Seq<char>)
    requires
        is_ascii_chars(hash),
    ensures
        can_shorten(hash),
        short_hash(hash) == hash.take(if hash.len() <= 16 {
            hash.len() as int
        } else {
            16
        }),
{
    let bytes = encode_utf8(hash);
    is_ascii_chars_encode_utf8(hash);
    assert(bytes.len() == hash.len());
    if hash.len() <= 16 {
        assert(hash.take(hash.len() as int) =~= hash);
    } else {
        vstd::utf8::encode_utf8_valid_utf8(hash);
        is_char_boundary_iff_not_is_continuation_byte(bytes, 16);
        let front = hash.take(16);
        is_ascii_chars_encode_utf8(front);
        assert(encode_utf8(front) =~= bytes.subrange(0, 16));
        encode_utf8_decode_utf8(front);
    }
}

/// A saved name has no path separator, so it names a file in the directory it is saved in.
pub proof fn saved_name_has_no_separator(sd_hash: Seq<char>, filename: Seq<char>)
    requires
        is_hex_text(sd_hash),
    ensures
        !media_name(sd_hash, filename).contains('/'),
        !media_name(sd_hash, filename).contains('\\'),
{
    let name = media_name(sd_hash, filename);
    lemma_short_hash_is_hex(sd_hash);
    assert forall|i: int| 0 <= i < name.len() implies name[i] != '/' && name[i] != '\\' by {
        if i < short_hash(sd_hash).len() {
            assert(is_hex_char(short_hash(sd_hash)[i]));
        }
    }
}

proof fn lemma_short_hash_is_hex(hash: Seq<char>)
    requires
        is_hex_text(hash),
    ensures
        is_hex_text(short_hash(hash)),
{
    hex_text_is_ascii(hash);
    ascii_can_be_shortened(hash);
    assert forall|i: int| 0 <= i < short_hash(hash).len() implies is_hex_char(
        #[trigger] short_hash(hash)[i],
    ) by {
        assert(is_hex_char(hash[i]));
    }
}

/// What was saved is served, exactly if its file name has no two dots in a row.
pub proof fn saved_media_is_served(sd_hash: Seq<char>, filename: Seq<char>)
    requires
        is_hex_text(sd_hash),
    ensures
        is_bad_media_name(media_name(sd_hash, filename)) <==> occurs_in(seq!['.', '.'], filename),
{
    let dots = seq!['.', '.'];
    let name = media_name(sd_hash, filename);
    let k = short_hash(sd_hash).len() + 1;
    saved_name_has_no_separator(sd_hash, filename);
    lemma_short_hash_is_hex(sd_hash);
    if occurs_in(dots, name) {
        let i = choose|i: int| #[trigger] occurs_at(dots, name, i);
        let piece = name.subrange(i, i + 2);
        assert(piece[0] == '.' && piece[1] == '.');
        assert(name[i] == '.' && name[i + 1] == '.');
        if i < k - 1 {
            assert(is_hex_char(short_hash(sd_hash)[i]));
        }
        assert(i >= k);
        assert(filename[i - k] == '.' && filename[i + 1 - k] == '.');
        assert(filename.subrange(i - k, i - k + 2) =~= dots);
        assert(occurs_at(dots, filename, i - k));
    }
    if occurs_in(dots, filename) {
        let i = choose|i: int| #[trigger] occurs_at(dots, filename, i);
        let piece = filename.subrange(i, i + 2);
        assert(piece[0] == '.' && piece[1] == '.');
        assert(name[k + i] == '.' && name[k + i + 1] == '.');
        assert(name.subrange(k + i, k + i + 2) =~= dots);
        assert(occurs_at(dots, name, k + i));
    }
}

/// A file name of any length comes back from the hexadecimal text of its bytes, whatever the case
/// of the digits; bytes that are no text give what stands for them; and the stock name stands for
/// nothing but text that is not an even number of hexadecimal digits.
pub proof fn filename_comes_back(name: Seq<char>, hex: Seq<char>, bytes: Seq<u8>)
    ensures
        stream_filename(hex_text(encode_utf8(name))) == name,
        is_hex_text(hex) && lower_text(hex) == hex_text(encode_utf8(name)) ==> stream_filename(hex)
            == name,
        valid_utf8(bytes) ==> encode_utf8(stream_filename(hex_text(bytes))) == bytes,
        !valid_utf8(bytes) ==> stream_filename(hex_text(bytes)) == utf8_lossy(bytes),
        hex.len() % 2 != 0 || !is_hex_text(hex) ==> stream_filename(hex) == "assembled.bin"@,
{
    let spelled = encode_utf8(name);
    hex_round_trip(spelled);
    hex_round_trip(bytes);
    encode_utf8_valid_utf8(name);
    encode_utf8_decode_utf8(name);
    if is_hex_text(hex) && lower_text(hex) == hex_text(spelled) {
        assert(hex.len() == lower_text(hex).len());
        hex_bytes_round_trip(hex);
        hex_round_trip(hex_bytes(hex));
    }
    if valid_utf8(bytes) {
        decode_utf8_encode_utf8(bytes);
    }
}

/// A hash is shortened to its first sixteen bytes, or not at all if it has no more.
pub proof fn short_hash_is_the_front(hash: Seq<char>)
    requires
        can_shorten(hash),
    ensures
        encode_utf8(hash).len() <= 16 ==> short_hash(hash) == hash,
        encode_utf8(hash).len() > 16 ==> encode_utf8(short_hash(hash)) == encode_utf8(hash).take(
            16,
        ),
{
    if encode_utf8(hash).len() > 16 {
        let bytes = encode_utf8(hash);
        encode_utf8_valid_utf8(hash);
        valid_utf8_split(bytes, 16);
        assert(bytes.subrange(0, 16) =~= bytes.take(16));
        decode_utf8_encode_utf8(bytes.take(16));
    }
}

/// A saved name is the first sixteen digits of the hash, or all of them if there are fewer, an
/// underscore, and the file name, in which every slash and backslash and nothing else has become
/// an underscore.
pub proof fn saved_name_layout(sd_hash: Seq<char>, filename: Seq<char>, i: int)
    requires
        is_hex_text(sd_hash),
    ensures
        ({
            let name = media_name(sd_hash, filename);
            let n: int = if sd_hash.len() < 16 {
                sd_hash.len() as int
            } else {
                16
            };
            &&& name.len() == n + 1 + filename.len()
            &&& name.take(n) == sd_hash.take(n)
            &&& name[n] == '_'
            &&& 0 <= i < filename.len() && filename[i] != '/' && filename[i] != '\\' ==> name[n + 1
                + i] == filename[i]
            &&& 0 <= i < filename.len() && (filename[i] == '/' || filename[i] == '\\') ==> name[n
                + 1 + i] == '_'
        }),
{
    hex_text_is_ascii(sd_hash);
    ascii_can_be_shortened(sd_hash);
    let n: int = if sd_hash.len() < 16 {
        sd_hash.len() as int
    } else {
        16
    };
    assert(media_name(sd_hash, filename).take(n) =~= sd_hash.take(n));
}

/// A file is served with the type that its ending stands for, whatever comes before the ending,
/// and with the general one if it has none of these endings.
pub proof fn ending_decides_the_type(stem: Seq<char>, name: Seq<char>)
    ensures
        content_type_of(stem + ".wav"@) == "audio/wav"@,
        content_type_of(stem + ".mp4"@) == "video/mp4"@,
        content_type_of(stem + ".webm"@) == "video/webm"@,
        content_type_of(stem + ".mp3"@) == "audio/mpeg"@,
        (forall|front: Seq<char>| name != #[trigger] (front + ".wav"@)) && (forall|
            front: Seq<char>,
        | name != #[trigger] (front + ".mp4"@)) && (forall|front: Seq<char>|
            name != #[trigger] (front + ".webm"@)) && (forall|front: Seq<char>|
            name != #[trigger] (front + ".mp3"@)) ==> content_type_of(name)
            == "application/octet-stream"@,
{
    reveal_strlit(".wav");
    reveal_strlit(".mp4");
    reveal_strlit(".webm");
    reveal_strlit(".mp3");
    ends_behind_a_front(stem + ".wav"@, ".wav"@);
    ends_behind_a_front(stem + ".mp4"@, ".mp4"@);
    ends_behind_a_front(stem + ".webm"@, ".webm"@);
    ends_behind_a_front(stem + ".mp3"@, ".mp3"@);
    let mp4 = stem + ".mp4"@;
    let webm = stem + ".webm"@;
    let mp3 = stem + ".mp3"@;
    assert(mp4.last() == '4' && webm.last() == 'm' && mp3.last() == '3');
    assert(".wav"@.last() == 'v' && ".mp4"@.last() == '4' && ".webm"@.last() == 'm');
    assert(forall|s: Seq<char>, t: Seq<char>|
        t.len() > 0 && #[trigger] ends_with(s, t) ==> s.last() == t.last()) by {
        assert forall|s: Seq<char>, t: Seq<char>|
            t.len() > 0 && #[trigger] ends_with(s, t) implies s.last() == t.last() by {
            assert(s.skip(s.len() - t.len()).last() == s.last());
        }
    }
    ends_behind_a_front(name, ".wav"@);
    ends_behind_a_front(name, ".mp4"@);
    ends_behind_a_front(name, ".webm"@);
    ends_behind_a_front(name, ".mp3"@);
}

/// A name is refused exactly if it has a slash, a backslash, or a dot right behind a dot.
pub proof fn names_that_are_refused(name: Seq<char>)
    ensures
        is_bad_media_name(name) <==> exists|i: int|
            0 <= i < name.len() && (#[trigger] name[i] == '/' || name[i] == '\\' || (name[i] == '.'
                && i + 1 < name.len() && name[i + 1] == '.')),
{
    let dots = seq!['.', '.'];
    if occurs_in(dots, name) {
        let i = choose|i: int| #[trigger] occurs_at(dots, name, i);
        let piece = name.subrange(i, i + 2);
        assert(piece[0] == name[i] && piece[1] == name[i + 1]);
        assert(name[i] == '.' && name[i + 1] == '.');
    }
    assert forall|i: int|
        0 <= i < name.len() - 1 && #[trigger] name[i] == '.' && name[i + 1]
            == '.' implies occurs_in(dots, name) by {
        assert(name.subrange(i, i + 2) =~= dots);
        assert(occurs_at(dots, name, i));
    }
}

} // verus!
