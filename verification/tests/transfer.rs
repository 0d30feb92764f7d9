use std::collections::BTreeMap;

use lbry_superpeer::hash::blob_hash_hex;
use lbry_superpeer::protocol::{encode_request, Request};
use lbry_superpeer::reply::{read_get_reply, read_put_reply, GetReply, PutReply, Status};
use lbry_superpeer::serve::{answer_load, answer_store, ServeAction};
use lbry_superpeer::store::{list_blob_hashes, FileRead, LoadRequest, LoadStep};
use lbry_superpeer::stream::{AssemblyStep, BlobEntry, StreamDescriptor, VerifiedDescriptor};
use lbry_superpeer::upload::{DirUpload, UploadStep};
use lbry_superpeer::{serve_one, FsBlobStore};

type Files = BTreeMap<String, Vec<u8>>;

fn load(files: &Files, hash: &str) -> Option<Vec<u8>> {
    let mut search = FsBlobStore::new("store").load(hash);
    loop {
        let read = match search.request() {
            LoadRequest::Blob { .. } => FileRead::Failed,
            LoadRequest::File { name } => match files.get(&name) {
                Some(data) => FileRead::Read(data.clone()),
                None => FileRead::Missing,
            },
        };
        match search.step(read) {
            LoadStep::Next(next) => search = next,
            LoadStep::Found(data) => return Some(data),
            LoadStep::NotFound => return None,
            LoadStep::Failed => panic!("every file can be read"),
        }
    }
}

fn answer(files: &mut Files, request: &[u8]) -> Vec<u8> {
    match serve_one(request) {
        ServeAction::Receive(_) => panic!("the request is complete"),
        ServeAction::Load { hash, purpose } => answer_load(purpose, &load(files, &hash)),
        ServeAction::Store { hash, body } => {
            let write = FsBlobStore::new("store").store(&hash, body);
            files.insert(write.name, write.data);
            answer_store()
        }
        ServeAction::Reply(bytes) => bytes,
    }
}

fn upload(files: &mut Files, dir: &Files) -> usize {
    let mut upload = DirUpload::new(list_blob_hashes(&dir.keys().cloned().collect()));
    loop {
        match upload.next() {
            UploadStep::Done(n) => return n,
            UploadStep::Load(step) => {
                let data = dir[step.hash()].clone();
                let put = match step.accept(data) {
                    Ok(put) => put,
                    Err(_) => panic!("the blob has its hash"),
                };
                let status = match read_put_reply(&answer(files, put.request())) {
                    PutReply::Answered(status) => status,
                    PutReply::More(_) => panic!("the reply is complete"),
                };
                assert_eq!(status, Status::Done);
                upload = match put.answered(status) {
                    Ok(upload) => upload,
                    Err(_) => panic!("the blob was stored"),
                };
            }
        }
    }
}

fn download(files: &mut Files, hash: &str) -> Vec<u8> {
    let request = encode_request(&Request::GetBlob { hash: hash.to_string() }).unwrap();
    match read_get_reply(&answer(files, &request)) {
        GetReply::Found(data) => data,
        _ => panic!("the blob is there"),
    }
}

fn directory(blobs: &[&[u8]]) -> Files {
    let mut dir: Files = blobs.iter().map(|b| (blob_hash_hex(b), b.to_vec())).collect();
    dir.insert("DEMO.json".to_string(), b"{}".to_vec());
    dir
}

#[test]
fn a_second_upload_changes_nothing() {
    let dir = directory(&[b"x", b"", b"zz"]);
    let mut files = Files::new();
    files.insert("other".to_string(), vec![9]);
    assert_eq!(upload(&mut files, &dir), 3);
    let once = files.clone();
    assert_eq!(once.len(), 4);
    assert_eq!(upload(&mut files, &dir), 3);
    assert_eq!(files, once);
}

#[test]
fn every_uploaded_blob_is_downloaded_in_either_case() {
    let blobs: [&[u8]; 3] = [b"x", b"", b"zz"];
    let mut files = Files::new();
    upload(&mut files, &directory(&blobs));
    for blob in blobs {
        let hash = blob_hash_hex(blob);
        assert_eq!(download(&mut files, &hash), blob);
        assert_eq!(download(&mut files, &hash.to_uppercase()), blob);
    }
    assert_eq!(load(&files, &blob_hash_hex(b"y")), None);
}

#[test]
fn a_file_with_a_capital_name_is_found_only_under_it() {
    let hash = blob_hash_hex(b"x").to_uppercase();
    let mut files = Files::new();
    files.insert(hash.clone(), b"x".to_vec());
    assert_eq!(load(&files, &hash), Some(b"x".to_vec()));
    assert_eq!(load(&files, &hash.to_lowercase()), None);
}

#[test]
fn an_uploaded_stream_is_fetched() {
    let data: Vec<u8> = (0..=255).cycle().take(1000).collect();
    let mask = |bytes: &[u8]| -> Vec<u8> { bytes.iter().map(|b| b ^ 0x5a).collect() };
    let packed: Vec<Vec<u8>> = data.chunks(300).map(mask).collect();
    let mut blobs: Vec<&[u8]> = packed.iter().map(|b| b.as_slice()).collect();
    blobs.push(b"descriptor");
    let mut files = Files::new();
    assert_eq!(upload(&mut files, &directory(&blobs)), 5);

    let sd_hash = blob_hash_hex(b"descriptor");
    let raw = download(&mut files, &sd_hash);
    let verified = match VerifiedDescriptor::check(sd_hash, raw) {
        Ok(verified) => verified,
        Err(_) => panic!("the descriptor has its hash"),
    };
    assert_eq!(verified.raw(), b"descriptor");
    let sd = StreamDescriptor {
        key: String::new(),
        filename: String::new(),
        blobs: packed
            .iter()
            .map(|b| BlobEntry { blob_hash: blob_hash_hex(b), iv: String::new() })
            .collect(),
    };
    let mut assembly = verified.fetch(sd, None);
    let stream = loop {
        match assembly.next() {
            AssemblyStep::Done(stream) => break stream,
            AssemblyStep::Fetch(fetch) => {
                let raw = download(&mut files, fetch.hash());
                let blob = match fetch.accept(raw) {
                    Ok(blob) => blob,
                    Err(_) => panic!("the blob has its hash"),
                };
                let plain = mask(blob.ciphertext());
                assembly = blob.append(&plain);
            }
        }
    };
    assert_eq!(stream.bytes(), &data);
}

#[test]
fn a_listing_of_blobs_is_kept_as_it_is() {
    let names = vec![blob_hash_hex(b"z"), blob_hash_hex(b"a").to_uppercase(), blob_hash_hex(b"m")];
    assert_eq!(list_blob_hashes(&names), names);
}
