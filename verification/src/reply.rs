//! Replies of the blob protocol.
//!
//! `Have` is answered by one byte, zero or one. An upload is answered by a four-byte status, and
//! so is a download; where its status is zero, an eight-byte length and the blob follow.

use vstd::prelude::*;

use crate::protocol::{
    copy_bytes, push_sized, sized_bytes, sized_bytes_layout, STATUS_BAD_REQUEST,
    STATUS_HASH_MISMATCH, STATUS_NOT_FOUND, STATUS_OK,
};
use crate::wire::{
    be_bytes, be_bytes_len, be_field_round_trip, be_round_trip, be_value, be_value_bound,
    byte_ranges, push_be, read_be,
};

verus! {

/// The status of a reply.
#[derive(Clone, Copy, Debug, PartialEq, Eq, Structural)]
pub enum Status {
    Done,
    NotFound,
    BadRequest,
    HashMismatch,
    Other(u32),
}

/// The status with the number `code`.
pub open spec fn status_of(code: u32) -> Status {
    if code == STATUS_OK {
        Status::Done
    } else if code == STATUS_NOT_FOUND {
        Status::NotFound
    } else if code == STATUS_BAD_REQUEST {
        Status::BadRequest
    } else if code == STATUS_HASH_MISMATCH {
        Status::HashMismatch
    } else {
        Status::Other(code)
    }
}

/// The reply to `Have`.
pub open spec fn have_reply(present: bool) -> Seq<u8> {
    if present {
        seq![1u8]
    } else {
        seq![0u8]
    }
}

/// A reply that is a status and nothing more.
pub open spec fn status_reply(code: u32) -> Seq<u8> {
    be_bytes(code as nat, 4)
}

/// The reply to a download: the blob if there is one.
pub open spec fn blob_reply(blob: Option<Seq<u8>>) -> Seq<u8> {
    match blob {
        Some(data) => status_reply(STATUS_OK) + sized_bytes(data),
        None => status_reply(STATUS_NOT_FOUND),
    }
}

/// A reply that the protocol does not know.
#[derive(Clone, Copy, Debug, PartialEq, Eq, Structural)]
pub struct MalformedReply;

/// How far the reply to a download has got.
#[derive(Debug)]
pub enum GetReply {
    /// This many bytes more are wanted next.
    More(usize),
    /// The blob.
    Found(Vec<u8>),
    /// The peer did not send the blob.
    Refused(Status),
    /// The blob is too large for this machine's memory to address.
    TooLarge,
}

/// How far the reply to a download has got, in terms of bytes.
pub enum GetReplyView {
    More(nat),
    Found(Seq<u8>),
    Refused(Status),
    TooLarge,
}

impl View for GetReply {
    type V = GetReplyView;

    open spec fn view(&self) -> GetReplyView {
        match self {
            GetReply::More(n) => GetReplyView::More(*n as nat),
            GetReply::Found(data) => GetReplyView::Found(data@),
            GetReply::Refused(status) => GetReplyView::Refused(*status),
            GetReply::TooLarge => GetReplyView::TooLarge,
        }
    }
}

/// How far the reply to an upload has got.
#[derive(Clone, Copy, Debug, PartialEq, Eq, Structural)]
pub enum PutReply {
    /// This many bytes more are wanted next.
    More(usize),
    /// The peer's answer; it stored the blob if the status is `Done`.
    Answered(Status),
}

/// How far the bytes `buf` of the reply to a download have got.
pub open spec fn get_received(buf: Seq<u8>) -> GetReplyView {
    if buf.len() < 4 {
        GetReplyView::More((4 - buf.len()) as nat)
    } else {
        let code = be_value(buf.subrange(0, 4));
        if code != STATUS_OK {
            GetReplyView::Refused(status_of(code as u32))
        } else if buf.len() < 12 {
            GetReplyView::More((12 - buf.len()) as nat)
        } else {
            let size = be_value(buf.subrange(4, 12));
            if 12 + size > usize::MAX {
                GetReplyView::TooLarge
            } else if buf.len() < 12 + size {
                GetReplyView::More((12 + size - buf.len()) as nat)
            } else {
                GetReplyView::Found(buf.subrange(12, 12 + size as int))
            }
        }
    }
}

/// How far the bytes `buf` of the reply to an upload have got.
pub open spec fn put_received(buf: Seq<u8>) -> PutReply {
    if buf.len() < 4 {
        PutReply::More((4 - buf.len()) as usize)
    } else {
        PutReply::Answered(status_of(be_value(buf.subrange(0, 4)) as u32))
    }
}

/// The status with the number `code`.
pub fn status_from_code(code: u32) -> (r: Status)
    ensures
        r == status_of(code),
{
    if code == STATUS_OK {
        Status::Done
    } else if code == STATUS_NOT_FOUND {
        Status::NotFound
    } else if code == STATUS_BAD_REQUEST {
        Status::BadRequest
    } else if code == STATUS_HASH_MISMATCH {
        Status::HashMismatch
    } else {
        Status::Other(code)
    }
}

/// Writes the reply to `Have`.
pub fn encode_have_reply(present: bool) -> (r: Vec<u8>)
    ensures
        r@ == have_reply(present),
{
    let mut out: Vec<u8> = Vec::new();
    out.push(if present { 1u8 } else { 0u8 });
    assert(out@ =~= have_reply(present));
    out
}

/// Writes a reply that is a status and nothing more.
pub fn encode_status_reply(code: u32) -> (r: Vec<u8>)
    ensures
        r@ == status_reply(code),
{
    let mut out: Vec<u8> = Vec::new();
    push_be(&mut out, code as u64, 4);
    assert(out@ =~= status_reply(code));
    out
}

/// Writes the reply to a download.
pub fn encode_blob_reply(blob: Option<&[u8]>) -> (r: Vec<u8>)
    ensures
        blob matches Some(data) ==> r@ == blob_reply(Some(data@)),
        blob is None ==> r@ == blob_reply(None),
{
    match blob {
        Some(data) => {
            let mut out = encode_status_reply(STATUS_OK);
            push_sized(&mut out, data);
            out
        },
        None => encode_status_reply(STATUS_NOT_FOUND),
    }
}

/// Reads the reply to `Have`, which is one byte.
pub fn read_have_reply(reply: u8) -> (r: Result<bool, MalformedReply>)
    ensures
        r == (if reply == 0 {
            Ok::<bool, MalformedReply>(false)
        } else if reply == 1 {
            Ok(true)
        } else {
            Err(MalformedReply)
        }),
{
    if reply == 0 {
        Ok(false)
    } else if reply == 1 {
        Ok(true)
    } else {
        Err(MalformedReply)
    }
}

fn read_status(buf: &[u8]) -> (r: u32)
    requires
        buf@.len() >= 4,
    ensures
        r == be_value(buf@.subrange(0, 4)),
{
    proof {
        be_value_bound(buf@.subrange(0, 4));
        byte_ranges();
    }
    read_be(buf, 0, 4) as u32
}

/// Reads the reply to a download from the bytes that came in so far.
pub fn read_get_reply(buf: &[u8]) -> (r: GetReply)
    ensures
        r@ == get_received(buf@),
{
    if buf.len() < 4 {
        return GetReply::More(4 - buf.len());
    }
    let code: u32 = read_status(buf);
    if code != STATUS_OK {
        return GetReply::Refused(status_from_code(code));
    }
    if buf.len() < 12 {
        return GetReply::More(12 - buf.len());
    }
    let size: u64 = read_be(buf, 4, 8);
    if size > (usize::MAX - 12) as u64 {
        return GetReply::TooLarge;
    }
    let end: usize = 12 + size as usize;
    if buf.len() < end {
        return GetReply::More(end - buf.len());
    }
    GetReply::Found(copy_bytes(buf, 12, end))
}

/// Reads the reply to an upload from the bytes that came in so far.
pub fn read_put_reply(buf: &[u8]) -> (r: PutReply)
    ensures
        r == put_received(buf@),
{
    if buf.len() < 4 {
        return PutReply::More(4 - buf.len());
    }
    PutReply::Answered(status_from_code(read_status(buf)))
}

/// A status comes back from its four bytes.
pub proof fn status_round_trip(code: u32)
    ensures
        status_reply(code).len() == 4,
        be_value(status_reply(code)) == code,
{
    be_bytes_len(code as nat, 4);
    byte_ranges();
    be_round_trip(code as nat, 4);
}

/// Reading the reply to an upload gives the status that was written.
pub proof fn put_reply_round_trip(code: u32)
    ensures
        put_received(status_reply(code)) == PutReply::Answered(status_of(code)),
{
    status_round_trip(code);
    assert(status_reply(code).subrange(0, 4) =~= status_reply(code));
}

/// Reading the reply to a download gives the blob, or that there is none.
pub proof fn blob_reply_round_trip(blob: Option<Seq<u8>>)
    requires
        blob matches Some(data) ==> data.len() + 12 <= usize::MAX,
    ensures
        get_received(blob_reply(blob)) == (match blob {
            Some(data) => GetReplyView::Found(data),
            None => GetReplyView::Refused(Status::NotFound),
        }),
{
    let bytes = blob_reply(blob);
    match blob {
        Some(data) => {
            status_round_trip(STATUS_OK);
            sized_bytes_layout(data);
            assert(bytes.subrange(0, 4) =~= status_reply(STATUS_OK));
            assert(bytes.subrange(4, 12) =~= sized_bytes(data).subrange(0, 8));
            assert(bytes.subrange(12, 12 + data.len() as int) =~= sized_bytes(data).skip(8));
        },
        None => {
            status_round_trip(STATUS_NOT_FOUND);
            assert(bytes.subrange(0, 4) =~= bytes);
        },
    }
}

/// Of an incomplete blob, the reader asks for at least one byte more and never for more than is
/// still to come.
pub proof fn blob_reply_is_read_to_its_end(data: Seq<u8>, count: int)
    requires
        data.len() + 12 <= usize::MAX,
        0 <= count < data.len() + 12,
    ensures
        get_received(blob_reply(Some(data)).take(count)) matches GetReplyView::More(n) && 1 <= n
            && count + n <= data.len() + 12,
        blob_reply(Some(data)).len() == data.len() + 12,
{
    let front = blob_reply(Some(data)).take(count);
    status_round_trip(STATUS_OK);
    sized_bytes_layout(data);
    if count >= 4 {
        assert(front.subrange(0, 4) =~= status_reply(STATUS_OK));
    }
    if count >= 12 {
        assert(front.subrange(4, 12) =~= sized_bytes(data).subrange(0, 8));
    }
}

/// The numbers of the statuses: zero that it was done, one that there is no such blob, two that
/// the request was bad, three that the blob has another hash.
pub proof fn status_numbers(code: u32)
    ensures
        STATUS_OK == 0,
        STATUS_NOT_FOUND == 1,
        STATUS_BAD_REQUEST == 2,
        STATUS_HASH_MISMATCH == 3,
        status_of(code) == Status::Done <==> code == 0,
        status_of(code) == Status::NotFound <==> code == 1,
        status_of(code) == Status::BadRequest <==> code == 2,
        status_of(code) == Status::HashMismatch <==> code == 3,
        code > 3 ==> status_of(code) == Status::Other(code),
{
}

/// The view of the reply to a download has the blob that came in, and else tells the same.
pub proof fn reply_view_is_whole(reply: GetReply)
    ensures
        reply matches GetReply::More(n) ==> reply@ == GetReplyView::More(n as nat),
        reply matches GetReply::Found(data) ==> reply@ == GetReplyView::Found(data@),
        reply matches GetReply::Refused(status) ==> reply@ == GetReplyView::Refused(status),
        reply is TooLarge ==> reply@ == GetReplyView::TooLarge,
{
}

/// The bytes of the replies: one byte for whether a blob is there; for a download the status zero
/// in four bytes, the blob's length in eight, and the blob, or the status one alone.
pub proof fn reply_layout(data: Seq<u8>)
    requires
        data.len() <= u64::MAX,
    ensures
        have_reply(true) == seq![1u8],
        have_reply(false) == seq![0u8],
        blob_reply(Some(data)).len() == 12 + data.len(),
        be_value(blob_reply(Some(data)).subrange(0, 4)) == 0,
        be_value(blob_reply(Some(data)).subrange(4, 12)) == data.len(),
        blob_reply(Some(data)).skip(12) == data,
        blob_reply(None).len() == 4,
        be_value(blob_reply(None)) == 1,
{
    let bytes = blob_reply(Some(data));
    status_round_trip(STATUS_OK);
    status_round_trip(STATUS_NOT_FOUND);
    sized_bytes_layout(data);
    assert(bytes.subrange(0, 4) =~= status_reply(STATUS_OK));
    assert(bytes.subrange(4, 12) =~= sized_bytes(data).subrange(0, 8));
    assert(bytes.skip(12) =~= data);
}

/// What a client reads of a reply, whatever comes behind it: every status but zero as it is, and
/// every blob that fits this machine's memory, however large.
pub proof fn replies_are_read(code: u32, data: Seq<u8>, rest: Seq<u8>)
    ensures
        put_received(status_reply(code) + rest) == PutReply::Answered(status_of(code)),
        code != 0 ==> get_received(status_reply(code) + rest) == GetReplyView::Refused(
            status_of(code),
        ),
        data.len() + 12 <= usize::MAX ==> get_received(blob_reply(Some(data)) + rest)
            == GetReplyView::Found(data),
{
    status_round_trip(code);
    assert((status_reply(code) + rest).subrange(0, 4) =~= status_reply(code));
    if data.len() + 12 <= usize::MAX {
        let bytes = blob_reply(Some(data)) + rest;
        status_round_trip(STATUS_OK);
        sized_bytes_layout(data);
        assert(bytes.subrange(0, 4) =~= status_reply(STATUS_OK));
        assert(bytes.subrange(4, 12) =~= sized_bytes(data).subrange(0, 8));
        assert(bytes.subrange(12, 12 + data.len() as int) =~= data);
    }
}

/// What was read of a reply was in it: a blob that was found stood there whole behind the status
/// zero and its length; the status of a refusal is that of its first four bytes and is not zero;
/// a blob is too large only if its end is beyond this machine's memory.
pub proof fn read_reply_was_sent(buf: Seq<u8>)
    ensures
        get_received(buf) matches GetReplyView::Found(data) ==> blob_reply(
            Some(data),
        ).is_prefix_of(buf),
        get_received(buf) matches GetReplyView::Refused(status) ==> buf.len() >= 4 && be_value(
            buf.subrange(0, 4),
        ) != 0 && status == status_of(be_value(buf.subrange(0, 4)) as u32),
        get_received(buf) is TooLarge ==> buf.len() >= 12 && be_value(buf.subrange(0, 4)) == 0
            && 12 + be_value(buf.subrange(4, 12)) > usize::MAX,
        buf.len() < 4 ==> put_received(buf) is More,
        buf.len() < 4 ==> (get_received(buf) matches GetReplyView::More(n) && n == 4 - buf.len()),
        put_received(buf) matches PutReply::More(n) ==> n == 4 - buf.len(),
{
    if let GetReplyView::Found(data) = get_received(buf) {
        be_field_round_trip(buf.subrange(0, 4));
        be_field_round_trip(buf.subrange(4, 12));
        assert(blob_reply(Some(data)) =~= buf.take(12 + data.len() as int));
    }
}

} // verus!
