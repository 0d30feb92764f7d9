use lbry_superpeer::protocol::{
    encode_request, push_bytes, read_request, BadHash, Command, Received, Refusal, Request,
};
use lbry_superpeer::reply::{
    encode_blob_reply, encode_have_reply, encode_status_reply, read_get_reply, read_have_reply,
    read_put_reply, status_from_code, GetReply, MalformedReply, PutReply, Status,
};
use lbry_superpeer::wire::{push_be, read_be};
use lbry_superpeer::{ALPN, MAX_BLOB_BYTES};

fn have(hash: &str) -> Request {
    Request::Have { hash: hash.to_string() }
}

fn get(hash: &str) -> Request {
    Request::GetBlob { hash: hash.to_string() }
}

fn put(hash: &str, body: &[u8]) -> Request {
    Request::PutBlob { hash: hash.to_string(), body: body.to_vec() }
}

fn same(a: &Request, b: &Request) -> bool {
    match (a, b) {
        (Request::Have { hash: x }, Request::Have { hash: y }) => x == y,
        (Request::GetBlob { hash: x }, Request::GetBlob { hash: y }) => x == y,
        (Request::PutBlob { hash: x, body: p }, Request::PutBlob { hash: y, body: q }) => {
            x == y && p == q
        }
        _ => false,
    }
}

#[test]
fn protocol_name_and_limit() {
    assert_eq!(&ALPN, b"lbry-blob-iroh/1");
    assert_eq!(MAX_BLOB_BYTES, 3 * 1024 * 1024);
}

#[test]
fn integers_are_big_endian() {
    let mut out = vec![9];
    push_be(&mut out, 0x0102, 4);
    push_be(&mut out, u64::MAX - 1, 8);
    assert_eq!(out[..5], [9, 0, 0, 1, 2]);
    assert_eq!(out[5..], (u64::MAX - 1).to_be_bytes());
    assert_eq!(read_be(&out, 1, 4), 0x0102);
    assert_eq!(read_be(&out, 5, 8), u64::MAX - 1);
    assert_eq!(read_be(&out, 3, 0), 0);
    push_bytes(&mut out, &[7, 8]);
    assert_eq!(out[13..], [7, 8]);
}

#[test]
fn request_bytes_as_laid_out() {
    assert_eq!(encode_request(&have("aB")), Ok(vec![1, 2, b'a', b'B']));
    assert_eq!(encode_request(&get("")), Ok(vec![2, 0]));
    assert_eq!(
        encode_request(&put("0f", &[5, 6, 7])),
        Ok(vec![3, 2, b'0', b'f', 0, 0, 0, 0, 0, 0, 0, 3, 5, 6, 7])
    );
}

#[test]
fn a_hash_that_cannot_be_written() {
    assert_eq!(encode_request(&have("xyz")), Err(BadHash));
    assert_eq!(encode_request(&get("é")), Err(BadHash));
    assert_eq!(encode_request(&put(&"a".repeat(256), b"")), Err(BadHash));
    assert!(encode_request(&get(&"a".repeat(255))).is_ok());
}

#[test]
fn requests_come_back() {
    let all = [have("ab12"), get(&"F".repeat(96)), put("00", &[1; 300]), put("", b"")];
    for request in &all {
        let bytes = encode_request(request).unwrap();
        match read_request(&bytes) {
            Received::Complete(read) => assert!(same(&read, request)),
            other => panic!("{other:?}"),
        }
        for n in 0..bytes.len() {
            match read_request(&bytes[..n]) {
                Received::More(more) => assert!(more >= 1 && n + more <= bytes.len()),
                other => panic!("{other:?}"),
            }
        }
        let mut longer = bytes.clone();
        longer.extend_from_slice(&[0xff; 20]);
        match read_request(&longer) {
            Received::Complete(read) => assert!(same(&read, request)),
            other => panic!("{other:?}"),
        }
    }
}

#[test]
fn what_is_asked_for_next() {
    assert!(matches!(read_request(&[]), Received::More(2)));
    assert!(matches!(read_request(&[1]), Received::More(1)));
    assert!(matches!(read_request(&[1, 96]), Received::More(96)));
    assert!(matches!(read_request(&[3, 1, b'a']), Received::More(8)));
    assert!(matches!(read_request(&[3, 0, 0, 0, 0, 0, 0, 0, 1, 0]), Received::More(256)));
}

#[test]
fn refused_requests() {
    for command in [0, 4, 255] {
        match read_request(&[command, 0]) {
            Received::Refused(r) => assert_eq!(r, Refusal::UnknownCommand),
            other => panic!("{other:?}"),
        }
    }
    let commands = [(1, Command::Have), (2, Command::GetBlob), (3, Command::PutBlob)];
    for (byte, command) in commands {
        match read_request(&[byte, 2, b'a', b'/']) {
            Received::Refused(r) => assert_eq!(r, Refusal::BadHash { command }),
            other => panic!("{other:?}"),
        }
    }
}

#[test]
fn the_limit_of_an_upload() {
    let mut head = vec![3, 0];
    push_be(&mut head, MAX_BLOB_BYTES, 8);
    assert!(matches!(read_request(&head), Received::More(n) if n as u64 == MAX_BLOB_BYTES));
    let mut head = vec![3, 0];
    push_be(&mut head, MAX_BLOB_BYTES + 1, 8);
    match read_request(&head) {
        Received::Refused(r) => assert_eq!(r, Refusal::BodyTooLarge),
        other => panic!("{other:?}"),
    }
}

#[test]
fn status_numbers() {
    assert_eq!(status_from_code(0), Status::Done);
    assert_eq!(status_from_code(1), Status::NotFound);
    assert_eq!(status_from_code(2), Status::BadRequest);
    assert_eq!(status_from_code(3), Status::HashMismatch);
    assert_eq!(status_from_code(4), Status::Other(4));
}

#[test]
fn replies_to_have() {
    assert_eq!(encode_have_reply(true), vec![1]);
    assert_eq!(encode_have_reply(false), vec![0]);
    assert_eq!(read_have_reply(1), Ok(true));
    assert_eq!(read_have_reply(0), Ok(false));
    assert_eq!(read_have_reply(2), Err(MalformedReply));
}

#[test]
fn replies_to_a_download() {
    assert_eq!(
        encode_blob_reply(Some(&[9, 8])),
        vec![0, 0, 0, 0, 0, 0, 0, 0, 0, 0, 0, 2, 9, 8]
    );
    assert_eq!(encode_blob_reply(None), vec![0, 0, 0, 1]);
    let bytes = encode_blob_reply(Some(&[9, 8]));
    assert!(matches!(read_get_reply(&bytes), GetReply::Found(d) if d == [9, 8]));
    for n in 0..bytes.len() {
        match read_get_reply(&bytes[..n]) {
            GetReply::More(more) => assert!(more >= 1 && n + more <= bytes.len()),
            other => panic!("{other:?}"),
        }
    }
    let none = encode_blob_reply(None);
    assert!(matches!(read_get_reply(&none), GetReply::Refused(Status::NotFound)));
    let mut huge = encode_status_reply(0);
    push_be(&mut huge, u64::MAX, 8);
    assert!(matches!(read_get_reply(&huge), GetReply::TooLarge));
}

#[test]
fn replies_to_an_upload() {
    assert_eq!(encode_status_reply(3), vec![0, 0, 0, 3]);
    assert_eq!(read_put_reply(&[0, 0]), PutReply::More(2));
    assert_eq!(read_put_reply(&[0, 0, 0, 0]), PutReply::Answered(Status::Done));
    assert_eq!(read_put_reply(&[0, 0, 0, 2]), PutReply::Answered(Status::BadRequest));
    assert_eq!(read_put_reply(&[0, 0, 0, 3]), PutReply::Answered(Status::HashMismatch));
    assert_eq!(read_put_reply(&[1, 0, 0, 0]), PutReply::Answered(Status::Other(1 << 24)));
}
