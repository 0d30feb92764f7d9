use lbry_superpeer::hash::{blob_hash_hex, HashMismatch};
use lbry_superpeer::stream::{
    choose_fetch_key, choose_play_key, play_response, Assembled, Assembly, AssemblyStep,
    BlobEntry, StreamDescriptor, VerifiedDescriptor,
};

fn descriptor(blobs: &[&[u8]], filename: &str) -> StreamDescriptor {
    StreamDescriptor {
        key: "00ff".to_string(),
        filename: filename.to_string(),
        blobs: blobs
            .iter()
            .enumerate()
            .map(|(i, b)| BlobEntry { blob_hash: blob_hash_hex(b), iv: format!("{i:02x}") })
            .collect(),
    }
}

fn verified(raw: &[u8]) -> VerifiedDescriptor {
    match VerifiedDescriptor::check(blob_hash_hex(raw), raw.to_vec()) {
        Ok(v) => v,
        Err(_) => panic!("the hash is that of the bytes"),
    }
}

fn run(start: Assembly, blobs: &[&[u8]], key: &str) -> Assembled {
    let mut assembly = start;
    let mut i = 0;
    loop {
        match assembly.next() {
            AssemblyStep::Done(stream) => return stream,
            AssemblyStep::Fetch(fetch) => {
                assert_eq!(fetch.hash(), blob_hash_hex(blobs[i]));
                let blob = match fetch.accept(blobs[i].to_vec()) {
                    Ok(blob) => blob,
                    Err(_) => panic!("the blob has its hash"),
                };
                assert_eq!(blob.ciphertext(), blobs[i]);
                assert_eq!(blob.short_hash(), &blob_hash_hex(blobs[i])[..16]);
                assert_eq!(blob.key(), key);
                assert_eq!(blob.iv(), format!("{i:02x}"));
                let plain: Vec<u8> = blob.ciphertext().iter().rev().copied().collect();
                assembly = blob.append(&plain);
                i += 1;
            }
        }
    }
}

#[test]
fn a_stream_is_its_plaintexts_in_order() {
    let blobs: [&[u8]; 3] = [b"cba", b"", b"fed"];
    let start = verified(b"sd").fetch(descriptor(&blobs, ""), None);
    let stream = run(start, &blobs, "00ff");
    assert_eq!(stream.bytes(), b"abcdef");
    assert_eq!(stream.content_blobs(), 3);
}

#[test]
fn a_stream_without_blobs_is_empty() {
    let start = verified(b"sd").fetch(descriptor(&[], ""), Some("k".to_string()));
    let stream = run(start, &[], "k");
    assert!(stream.bytes().is_empty());
    assert_eq!(stream.content_blobs(), 0);
}

#[test]
fn a_wrong_descriptor_is_turned_down() {
    let wrong = VerifiedDescriptor::check(blob_hash_hex(b"other"), b"sd".to_vec());
    assert_eq!(wrong.err(), Some(HashMismatch));
    let upper = VerifiedDescriptor::check(blob_hash_hex(b"sd").to_uppercase(), b"sd".to_vec());
    assert!(upper.is_ok());
    assert_eq!(verified(b"sd").raw(), b"sd");
}

#[test]
fn a_wrong_blob_is_turned_down() {
    let start = verified(b"sd").play(descriptor(&[b"a"], ""), None);
    match start.next() {
        AssemblyStep::Fetch(fetch) => {
            assert_eq!(fetch.accept(b"b".to_vec()).err(), Some(HashMismatch));
        }
        AssemblyStep::Done(_) => panic!("a blob is left"),
    }
}

#[test]
fn keys_are_chosen() {
    let own = || "own".to_string();
    assert_eq!(choose_fetch_key(None, own()), "own");
    assert_eq!(choose_fetch_key(Some("x".to_string()), own()), "x");
    assert_eq!(choose_fetch_key(Some(String::new()), own()), "");
    assert_eq!(choose_play_key(None, own()), "own");
    assert_eq!(choose_play_key(Some("x".to_string()), own()), "x");
    assert_eq!(choose_play_key(Some(String::new()), own()), "own");
    let blobs: [&[u8]; 1] = [b"a"];
    run(verified(b"sd").fetch(descriptor(&blobs, ""), Some("00ff".to_string())), &blobs, "00ff");
    run(verified(b"sd").play(descriptor(&blobs, ""), Some("00ff".to_string())), &blobs, "00ff");
    run(verified(b"sd").play(descriptor(&blobs, ""), Some("k2".to_string())), &blobs, "k2");
    run(verified(b"sd").play(descriptor(&blobs, ""), Some(String::new())), &blobs, "00ff");
    run(verified(b"sd").fetch(descriptor(&blobs, ""), Some(String::new())), &blobs, "");
}

#[test]
fn the_answer_to_play() {
    let blobs: [&[u8]; 2] = [b"ba", b"c"];
    let start = verified(b"sd").play(descriptor(&blobs, "782f792e776176"), None);
    let stream = run(start, &blobs, "00ff");
    let short = blob_hash_hex(b"sd")[..16].to_string();
    assert_eq!(stream.filename(), "x/y.wav");
    assert_eq!(stream.saved_name(), format!("{short}_x_y.wav"));
    let r = play_response(&stream);
    assert!(r.ok);
    assert_eq!(r.filename, "x/y.wav");
    assert_eq!(r.bytes, 3);
    assert_eq!(r.content_blobs, 2);
    assert_eq!(r.media_path, format!("/media/{short}_x_y.wav"));
    assert_eq!(r.message, "Verified 2 LBRY-shaped blobs over Iroh.");
}
