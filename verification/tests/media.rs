use lbry_superpeer::media::{
    check_media_name, content_type, decode_filename, media_file_name, replace_separators,
    shorten_hash, BadMediaName,
};

#[test]
fn content_types() {
    assert_eq!(content_type("a.wav"), "audio/wav");
    assert_eq!(content_type("a.mp4"), "video/mp4");
    assert_eq!(content_type("a.webm"), "video/webm");
    assert_eq!(content_type("a.mp3"), "audio/mpeg");
    assert_eq!(content_type("a.WAV"), "application/octet-stream");
    assert_eq!(content_type("a.bin"), "application/octet-stream");
    assert_eq!(content_type(""), "application/octet-stream");
}

#[test]
fn names_that_are_served() {
    assert_eq!(check_media_name("0123_a.wav"), Ok("audio/wav"));
    assert_eq!(check_media_name(".a.b."), Ok("application/octet-stream"));
    for bad in ["..", "a..b", "/a", "a/b", "a\\b"] {
        assert_eq!(check_media_name(bad), Err(BadMediaName));
    }
}

#[test]
fn a_bad_name_in_words() {
    assert_eq!(check_media_name("..").unwrap_err().message(), "bad name");
}

#[test]
fn separators_are_replaced() {
    assert_eq!(replace_separators("a.wav"), "a.wav");
    assert_eq!(replace_separators("../../x"), ".._.._x");
    assert_eq!(replace_separators("/tmp/x"), "_tmp_x");
    assert_eq!(replace_separators("C:\\é"), "C:_é");
    assert_eq!(replace_separators(""), "");
}

#[test]
fn names_in_hexadecimal() {
    assert_eq!(decode_filename("612E776176"), "a.wav");
    assert_eq!(decode_filename("c3a9"), "é");
    assert_eq!(decode_filename(""), "");
    assert_eq!(decode_filename("61f"), "assembled.bin");
    assert_eq!(decode_filename("zz"), "assembled.bin");
    assert_eq!(decode_filename("é"), "assembled.bin");
    assert_eq!(decode_filename("61ff62"), "a\u{fffd}b");
}

#[test]
fn short_hashes() {
    assert_eq!(shorten_hash(""), "");
    assert_eq!(shorten_hash("0123456789abcdef"), "0123456789abcdef");
    assert_eq!(shorten_hash("0123456789abcdef0"), "0123456789abcdef");
    assert_eq!(shorten_hash("ééééééééé"), "éééééééé");
}

#[test]
fn saved_names() {
    let hash = "ab".repeat(48);
    assert_eq!(media_file_name(&hash, "d/e\\f.mp3"), "abababababababab_d_e_f.mp3");
    assert_eq!(media_file_name("ab", ""), "ab_");
}

#[test]
fn saved_media_is_served_unless_it_has_two_dots() {
    let hash = "ab".repeat(48);
    for name in ["a.wav", "../x.mp4", ".hidden", "x..y", "a/b/c", ".", "..", "\\\\"] {
        let saved = media_file_name(&hash, name);
        assert!(!saved.contains('/') && !saved.contains('\\'));
        assert_eq!(check_media_name(&saved).is_err(), name.contains(".."));
    }
}
