use std::collections::HashMap;
use std::path::{Path, PathBuf};

use lbry_superpeer::hash::{blob_hash_hex, HashMismatch};
use lbry_superpeer::protocol::{encode_request, Command, Refusal, Request};
use lbry_superpeer::reply::{read_get_reply, read_put_reply, GetReply, PutReply, Status};
use lbry_superpeer::serve::{
    admit_upload, answer_load, answer_store, encode_refusal, next_on_connection,
    ConnectionAction, ConnectionEvent, LoadFor, ServeAction,
};
use lbry_superpeer::store::{list_blob_hashes, FileRead, LoadRequest, LoadStage, LoadStep};
use lbry_superpeer::{serve_one, FsBlobStore, MAX_BLOB_BYTES};

type Files = HashMap<String, Vec<u8>>;

fn load(store: &FsBlobStore, files: &Files, hash: &str) -> Option<Vec<u8>> {
    let mut search = store.load(hash);
    loop {
        let read = match search.request() {
            LoadRequest::Blob { .. } => FileRead::Failed,
            LoadRequest::File { name } => match files.get(&name) {
                Some(data) => FileRead::Read(data.clone()),
                None => FileRead::Missing,
            },
        };
        match search.step(read) {
            LoadStep::Next(next) => search = next,
            LoadStep::Found(data) => return Some(data),
            LoadStep::NotFound => return None,
            LoadStep::Failed => panic!("no file fails here"),
        }
    }
}

fn exchange(store: &FsBlobStore, files: &mut Files, message: &[u8]) -> Vec<u8> {
    let mut received = 0;
    loop {
        match serve_one(&message[..received]) {
            ServeAction::Receive(n) => received += n,
            ServeAction::Load { hash, purpose } => {
                return answer_load(purpose, &load(store, files, &hash));
            }
            ServeAction::Store { hash, body } => {
                let write = store.store(&hash, body);
                files.insert(write.name, write.data);
                return answer_store();
            }
            ServeAction::Reply(bytes) => return bytes,
        }
    }
}

fn message(request: Request) -> Vec<u8> {
    encode_request(&request).unwrap()
}

fn put(hash: &str, body: &[u8]) -> Vec<u8> {
    message(Request::PutBlob { hash: hash.to_string(), body: body.to_vec() })
}

#[test]
fn what_is_uploaded_is_downloaded_in_any_case() {
    let store = FsBlobStore::new("blobs");
    let mut files = Files::new();
    let body = b"some blob";
    let hash = blob_hash_hex(body);
    let upper = hash.to_uppercase();

    let have = message(Request::Have { hash: hash.clone() });
    assert_eq!(exchange(&store, &mut files, &have), vec![0]);
    let reply = exchange(&store, &mut files, &put(&upper, body));
    assert_eq!(read_put_reply(&reply), PutReply::Answered(Status::Done));
    assert_eq!(files.keys().collect::<Vec<_>>(), vec![&hash]);
    assert_eq!(exchange(&store, &mut files, &have), vec![1]);
    for asked in [hash, upper] {
        let get = message(Request::GetBlob { hash: asked });
        let reply = exchange(&store, &mut files, &get);
        assert!(matches!(read_get_reply(&reply), GetReply::Found(d) if d == body));
    }
}

#[test]
fn a_mismatch_is_not_stored() {
    let store = FsBlobStore::new("blobs");
    let mut files = Files::new();
    let reply = exchange(&store, &mut files, &put(&blob_hash_hex(b"a"), b"b"));
    assert_eq!(reply, vec![0, 0, 0, 3]);
    assert_eq!(exchange(&store, &mut files, &put("ab", b"b")), vec![0, 0, 0, 3]);
    assert!(files.is_empty());
}

#[test]
fn an_upload_at_and_over_the_limit() {
    let store = FsBlobStore::new("blobs");
    let mut files = Files::new();
    let body = vec![7; MAX_BLOB_BYTES as usize];
    assert_eq!(exchange(&store, &mut files, &put(&blob_hash_hex(&body), &body)), vec![0; 4]);
    assert_eq!(files.len(), 1);
    let body = vec![7; MAX_BLOB_BYTES as usize + 1];
    let reply = exchange(&store, &mut files, &put(&blob_hash_hex(&body), &body));
    assert_eq!(reply, vec![0, 0, 0, 2]);
    assert_eq!(files.len(), 1);
}

#[test]
fn a_missing_blob_is_not_found() {
    let store = FsBlobStore::new("blobs");
    let mut files = Files::new();
    let get = message(Request::GetBlob { hash: "abcd".to_string() });
    assert_eq!(exchange(&store, &mut files, &get), vec![0, 0, 0, 1]);
}

#[test]
fn refusals_are_answered() {
    let store = FsBlobStore::new("blobs");
    let mut files = Files::new();
    assert_eq!(exchange(&store, &mut files, &[9, 0]), vec![0, 0, 0, 2]);
    assert_eq!(exchange(&store, &mut files, &[1, 1, b'.']), vec![0]);
    assert_eq!(exchange(&store, &mut files, &[2, 1, b'.']), vec![0, 0, 0, 2]);
    assert_eq!(exchange(&store, &mut files, &[3, 1, b'.']), vec![0, 0, 0, 2]);
    assert_eq!(encode_refusal(Refusal::BodyTooLarge), vec![0, 0, 0, 2]);
    assert_eq!(encode_refusal(Refusal::BadHash { command: Command::Have }), vec![0]);
}

#[test]
fn the_verdict_decides_an_upload() {
    match admit_upload(Ok(()), "ab".to_string(), vec![1]) {
        ServeAction::Store { hash, body } => assert!(hash == "ab" && body == [1]),
        other => panic!("{other:?}"),
    }
    match admit_upload(Err(HashMismatch), "ab".to_string(), vec![1]) {
        ServeAction::Reply(bytes) => assert_eq!(bytes, vec![0, 0, 0, 3]),
        other => panic!("{other:?}"),
    }
    assert_eq!(answer_load(LoadFor::Have, &Some(vec![])), vec![1]);
    assert_eq!(answer_load(LoadFor::GetBlob, &None), vec![0, 0, 0, 1]);
}

#[test]
fn a_connection_outlives_failed_requests() {
    let steps = [
        (ConnectionEvent::Connected, ConnectionAction::AcceptStream),
        (ConnectionEvent::StreamOpened, ConnectionAction::ServeRequest),
        (ConnectionEvent::RequestServed, ConnectionAction::AcceptStream),
        (ConnectionEvent::RequestFailed, ConnectionAction::AcceptStream),
        (ConnectionEvent::Closed, ConnectionAction::Leave),
    ];
    for (event, action) in steps {
        assert_eq!(next_on_connection(event), action);
    }
}

#[test]
fn the_store_keeps_its_directory() {
    let store = FsBlobStore::new("some/blobs");
    assert_eq!(store.dir(), Path::new("some/blobs"));
    assert_eq!(store.clone().dir(), store.dir());
    let path = PathBuf::from("/x");
    assert_eq!(FsBlobStore::new(path.clone()).dir(), &path);
}

#[test]
fn the_order_of_a_search() {
    let store = FsBlobStore::new("blobs");
    let search = store.load("AbÉ");
    assert_eq!(search.stage, LoadStage::Blob);
    assert!(matches!(search.request(), LoadRequest::Blob { hash } if hash == "AbÉ"));
    let search = match search.step(FileRead::Missing) {
        LoadStep::Next(next) => next,
        other => panic!("{other:?}"),
    };
    assert!(matches!(search.request(), LoadRequest::File { name } if name == "abé"));
    let search = match search.step(FileRead::Missing) {
        LoadStep::Next(next) => next,
        other => panic!("{other:?}"),
    };
    assert!(matches!(search.request(), LoadRequest::File { name } if name == "AbÉ"));
    assert!(matches!(search.step(FileRead::Missing), LoadStep::NotFound));
}

#[test]
fn a_search_ends_on_what_it_reads() {
    let store = FsBlobStore::new("blobs");
    let found = store.load("ab").step(FileRead::Read(vec![4]));
    assert!(matches!(found, LoadStep::Found(d) if d == [4]));
    let second = match store.load("ab").step(FileRead::Failed) {
        LoadStep::Next(next) => next,
        other => panic!("{other:?}"),
    };
    assert!(matches!(second.step(FileRead::Failed), LoadStep::Failed));
}

#[test]
fn the_verbatim_name_is_tried_last() {
    let store = FsBlobStore::new("blobs");
    let mut files = Files::new();
    files.insert("AB".to_string(), vec![1]);
    assert_eq!(load(&store, &files, "AB"), Some(vec![1]));
    assert_eq!(load(&store, &files, "ab"), None);
    files.insert("ab".to_string(), vec![2]);
    assert_eq!(load(&store, &files, "AB"), Some(vec![2]));
}

#[test]
fn blobs_of_a_directory() {
    let a = "a".repeat(96);
    let b = "0F".repeat(48);
    let names = vec![
        "DEMO.json".to_string(),
        b.clone(),
        "a".repeat(95),
        "g".repeat(96),
        a.clone(),
        b.clone(),
        String::new(),
    ];
    assert_eq!(list_blob_hashes(&names), vec![b.clone(), a, b]);
    assert_eq!(list_blob_hashes(&vec![]), Vec::<String>::new());
}
