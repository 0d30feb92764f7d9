//! The blob protocol: one request and one reply on each stream.
//!
//! A request is a command byte, a hash (one length byte and that many hexadecimal digits) and,
//! for an upload, a body (an eight-byte length and that many bytes).

use vstd::prelude::*;

use crate::hash::{is_hex_char, is_hex_digit, is_hex_text};
use crate::text::to_chars;
use crate::wire::{
    be_bytes, be_bytes_len, be_field_round_trip, be_round_trip, be_value, byte_ranges, push_be,
    read_be,
};

verus! {

/// The protocol's name in the transport's handshake: `lbry-blob-iroh/1`.
pub const ALPN: [u8; 16] = [
    108, 98, 114, 121, 45, 98, 108, 111, 98, 45, 105, 114, 111, 104, 47, 49,
];

/// The largest body that an upload may have: three mebibytes.
pub const MAX_BLOB_BYTES: u64 = 3_145_728;

/// Command byte: does the peer have this blob?
pub const CMD_HAVE: u8 = 1;

/// Command byte: send this blob.
pub const CMD_GET: u8 = 2;

/// Command byte: store this blob.
pub const CMD_PUT: u8 = 3;

/// Status: done.
pub const STATUS_OK: u32 = 0;

/// Status: there is no such blob.
pub const STATUS_NOT_FOUND: u32 = 1;

/// Status: the request is malformed, or its body too large.
pub const STATUS_BAD_REQUEST: u32 = 2;

/// Status: the body does not have the claimed hash.
pub const STATUS_HASH_MISMATCH: u32 = 3;

/// What a request asks for.
#[derive(Clone, Copy, Debug, PartialEq, Eq, Structural)]
pub enum Command {
    Have,
    GetBlob,
    PutBlob,
}

/// A request to a peer.
#[derive(Debug)]
pub enum Request {
    Have { hash: String },
    GetBlob { hash: String },
    PutBlob { hash: String, body: Vec<u8> },
}

/// A request in terms of its text and bytes.
pub enum RequestView {
    Have { hash: Seq<char> },
    GetBlob { hash: Seq<char> },
    PutBlob { hash: Seq<char>, body: Seq<u8> },
}

impl View for Request {
    type V = RequestView;

    open spec fn view(&self) -> RequestView {
        match self {
            Request::Have { hash } => RequestView::Have { hash: hash@ },
            Request::GetBlob { hash } => RequestView::GetBlob { hash: hash@ },
            Request::PutBlob { hash, body } => RequestView::PutBlob { hash: hash@, body: body@ },
        }
    }
}

impl RequestView {
    /// The hash that the request names.
    pub open spec fn hash(self) -> Seq<char> {
        match self {
            RequestView::Have { hash } => hash,
            RequestView::GetBlob { hash } => hash,
            RequestView::PutBlob { hash, .. } => hash,
        }
    }

    /// Whether the hash can be written: hexadecimal digits whose number fits its length byte.
    pub open spec fn writable(self) -> bool {
        is_hex_text(self.hash()) && self.hash().len() <= 255
    }

    /// Whether a server takes the request up: its hash can be written, and its body is not too
    /// large.
    pub open spec fn well_formed(self) -> bool {
        self.writable() && (self matches RequestView::PutBlob { body, .. } ==> body.len()
            <= MAX_BLOB_BYTES)
    }
}

/// Why a server does not take a request up.
#[derive(Clone, Copy, Debug, PartialEq, Eq, Structural)]
pub enum Refusal {
    UnknownCommand,
    BadHash { command: Command },
    BodyTooLarge,
}

/// How far the bytes of a request that came in so far have got.
#[derive(Debug)]
pub enum Received {
    /// This many bytes more are wanted next.
    More(usize),
    /// The request is complete.
    Complete(Request),
    /// The request is not taken up.
    Refused(Refusal),
}

/// How far the bytes of a request have got, in terms of text and bytes.
pub enum ReceivedView {
    More(nat),
    Complete(RequestView),
    Refused(Refusal),
}

impl View for Received {
    type V = ReceivedView;

    open spec fn view(&self) -> ReceivedView {
        match self {
            Received::More(n) => ReceivedView::More(*n as nat),
            Received::Complete(request) => ReceivedView::Complete(request@),
            Received::Refused(refusal) => ReceivedView::Refused(*refusal),
        }
    }
}

/// A hash that cannot be written into a request.
#[derive(Clone, Copy, Debug, PartialEq, Eq, Structural)]
pub struct BadHash;

/// ASCII text as bytes.
pub open spec fn wire_bytes(text: Seq<char>) -> Seq<u8> {
    Seq::new(text.len(), |i: int| text[i] as u8)
}

/// Bytes as text, one character for each.
pub open spec fn wire_text(bytes: Seq<u8>) -> Seq<char> {
    Seq::new(bytes.len(), |i: int| bytes[i] as char)
}

/// A command and a hash, as they start every request.
pub open spec fn request_head(command: u8, hash: Seq<char>) -> Seq<u8> {
    seq![command, hash.len() as u8] + wire_bytes(hash)
}

/// A length and the bytes that it counts.
pub open spec fn sized_bytes(data: Seq<u8>) -> Seq<u8> {
    be_bytes(data.len(), 8) + data
}

/// The bytes of a request.
pub open spec fn request_bytes(request: RequestView) -> Seq<u8> {
    match request {
        RequestView::Have { hash } => request_head(CMD_HAVE, hash),
        RequestView::GetBlob { hash } => request_head(CMD_GET, hash),
        RequestView::PutBlob { hash, body } => request_head(CMD_PUT, hash) + sized_bytes(body),
    }
}

/// How far the bytes `buf` of a request have got.
pub open spec fn received(buf: Seq<u8>) -> ReceivedView {
    if buf.len() < 2 {
        ReceivedView::More((2 - buf.len()) as nat)
    } else if buf[0] < CMD_HAVE || buf[0] > CMD_PUT {
        ReceivedView::Refused(Refusal::UnknownCommand)
    } else if buf.len() < 2 + buf[1] {
        ReceivedView::More((2 + buf[1] - buf.len()) as nat)
    } else {
        let hash = wire_text(buf.subrange(2, 2 + buf[1]));
        if buf[0] == CMD_HAVE {
            if is_hex_text(hash) {
                ReceivedView::Complete(RequestView::Have { hash })
            } else {
                ReceivedView::Refused(Refusal::BadHash { command: Command::Have })
            }
        } else if buf[0] == CMD_GET {
            if is_hex_text(hash) {
                ReceivedView::Complete(RequestView::GetBlob { hash })
            } else {
                ReceivedView::Refused(Refusal::BadHash { command: Command::GetBlob })
            }
        } else if is_hex_text(hash) {
            received_body(hash, buf, 2 + buf[1])
        } else {
            ReceivedView::Refused(Refusal::BadHash { command: Command::PutBlob })
        }
    }
}

/// How far an upload has got whose length field starts at `at`.
pub open spec fn received_body(hash: Seq<char>, buf: Seq<u8>, at: int) -> ReceivedView {
    if buf.len() < at + 8 {
        ReceivedView::More((at + 8 - buf.len()) as nat)
    } else {
        let size = be_value(buf.subrange(at, at + 8));
        if size > MAX_BLOB_BYTES {
            ReceivedView::Refused(Refusal::BodyTooLarge)
        } else if buf.len() < at + 8 + size {
            ReceivedView::More((at + 8 + size - buf.len()) as nat)
        } else {
            ReceivedView::Complete(
                RequestView::PutBlob { hash, body: buf.subrange(at + 8, at + 8 + size) },
            )
        }
    }
}

/// Writes a request. It fails exactly where the hash is not hexadecimal or too long.
pub fn encode_request(request: &Request) -> (r: Result<Vec<u8>, BadHash>)
    ensures
        r is Ok <==> request@.writable(),
        r matches Ok(v) ==> v@ == request_bytes(request@),
{
    match request {
        Request::Have { hash } => encode_head(CMD_HAVE, hash.as_str()),
        Request::GetBlob { hash } => encode_head(CMD_GET, hash.as_str()),
        Request::PutBlob { hash, body } => {
            match encode_head(CMD_PUT, hash.as_str()) {
                Ok(head) => {
                    let mut out = head;
                    push_sized(&mut out, body.as_slice());
                    assert(out@ =~= request_bytes(request@));
                    Ok(out)
                },
                Err(e) => Err(e),
            }
        },
    }
}

fn encode_head(command: u8, hash: &str) -> (r: Result<Vec<u8>, BadHash>)
    ensures
        r is Ok <==> is_hex_text(hash@) && hash@.len() <= 255,
        r matches Ok(v) ==> v@ == request_head(command, hash@),
{
    let chars = to_chars(hash);
    if chars.len() > 255 {
        return Err(BadHash);
    }
    let mut out: Vec<u8> = Vec::new();
    out.push(command);
    out.push(chars.len() as u8);
    let mut i: usize = 0;
    while i < chars.len()
        invariant
            chars@ == hash@,
            chars@.len() <= 255,
            i <= chars@.len(),
            forall|j: int| 0 <= j < i ==> is_hex_char(#[trigger] hash@[j]),
            out@ == seq![command, hash@.len() as u8] + wire_bytes(hash@).take(i as int),
        decreases chars@.len() - i,
    {
        if !is_hex_digit(chars[i]) {
            assert(!is_hex_char(hash@[i as int]));
            return Err(BadHash);
        }
        out.push(chars[i] as u8);
        i += 1;
    }
    assert(out@ =~= request_head(command, hash@));
    Ok(out)
}

/// Appends the length of `data`, and `data`.
pub(crate) fn push_sized(out: &mut Vec<u8>, data: &[u8])
    ensures
        final(out)@ == old(out)@ + sized_bytes(data@),
{
    push_be(out, data.len() as u64, 8);
    push_bytes(out, data);
    assert(out@ =~= old(out)@ + sized_bytes(data@));
}

/// Appends `data` to `out`.
pub fn push_bytes(out: &mut Vec<u8>, data: &[u8])
    ensures
        final(out)@ == old(out)@ + data@,
{
    out.extend_from_slice(data);
    assert(out@ =~= old(out)@ + data@);
}

/// The bytes of `buf` from `start` up to `end`.
pub(crate) fn copy_bytes(buf: &[u8], start: usize, end: usize) -> (r: Vec<u8>)
    requires
        start <= end <= buf@.len(),
    ensures
        r@ == buf@.subrange(start as int, end as int),
{
    let mut out: Vec<u8> = Vec::new();
    push_bytes(&mut out, vstd::slice::slice_subrange(buf, start, end));
    assert(out@ =~= buf@.subrange(start as int, end as int));
    out
}

/// The hash in `buf` from position 2 up to `end`, if it is hexadecimal.
fn read_hash(buf: &[u8], end: usize) -> (r: Option<String>)
    requires
        2 <= end <= buf@.len(),
    ensures
        r is Some <==> is_hex_text(wire_text(buf@.subrange(2, end as int))),
        r matches Some(hash) ==> hash@ == wire_text(buf@.subrange(2, end as int)),
{
    let ghost text = wire_text(buf@.subrange(2, end as int));
    let mut out = String::new();
    let mut i: usize = 2;
    while i < end
        invariant
            2 <= i <= end <= buf@.len(),
            text == wire_text(buf@.subrange(2, end as int)),
            forall|j: int| 0 <= j < i - 2 ==> is_hex_char(#[trigger] text[j]),
            out@ == text.take(i - 2),
        decreases end - i,
    {
        let c: char = buf[i] as char;
        assert(text[i - 2] == c);
        if !is_hex_digit(c) {
            return None;
        }
        out.push(c);
        assert(out@ =~= text.take(i - 1));
        i += 1;
    }
    assert(out@ =~= text);
    Some(out)
}

/// Reads a request from the bytes that came in so far: the request, why it is not taken up, or
/// how many bytes more to wait for.
pub fn read_request(buf: &[u8]) -> (r: Received)
    ensures
        r@ == received(buf@),
{
    if buf.len() < 2 {
        return Received::More(2 - buf.len());
    }
    if buf[0] < CMD_HAVE || buf[0] > CMD_PUT {
        return Received::Refused(Refusal::UnknownCommand);
    }
    let at: usize = 2 + buf[1] as usize;
    if buf.len() < at {
        return Received::More(at - buf.len());
    }
    let hash = read_hash(buf, at);
    if buf[0] == CMD_HAVE {
        match hash {
            Some(hash) => Received::Complete(Request::Have { hash }),
            None => Received::Refused(Refusal::BadHash { command: Command::Have }),
        }
    } else if buf[0] == CMD_GET {
        match hash {
            Some(hash) => Received::Complete(Request::GetBlob { hash }),
            None => Received::Refused(Refusal::BadHash { command: Command::GetBlob }),
        }
    } else {
        match hash {
            Some(hash) => read_body(hash, buf, at),
            None => Received::Refused(Refusal::BadHash { command: Command::PutBlob }),
        }
    }
}

fn read_body(hash: String, buf: &[u8], at: usize) -> (r: Received)
    requires
        at <= 257,
        at <= buf@.len(),
    ensures
        r@ == received_body(hash@, buf@, at as int),
{
    if buf.len() < at + 8 {
        return Received::More(at + 8 - buf.len());
    }
    let size: u64 = read_be(buf, at, 8);
    if size > MAX_BLOB_BYTES {
        return Received::Refused(Refusal::BodyTooLarge);
    }
    let end: usize = at + 8 + size as usize;
    if buf.len() < end {
        return Received::More(end - buf.len());
    }
    Received::Complete(Request::PutBlob { hash, body: copy_bytes(buf, at + 8, end) })
}

/// Hexadecimal text comes back from the bytes that stand for it.
pub proof fn wire_text_round_trip(text: Seq<char>)
    requires
        is_hex_text(text),
    ensures
        wire_text(wire_bytes(text)) == text,
{
    assert forall|i: int| 0 <= i < text.len() implies (#[trigger] text[i] as u8) as char
        == text[i] by {
        assert(is_hex_char(text[i]));
    }
    assert(wire_text(wire_bytes(text)) =~= text);
}

/// A length field followed by its bytes has the bytes' length in its first eight bytes.
pub proof fn sized_bytes_layout(data: Seq<u8>)
    requires
        data.len() <= u64::MAX,
    ensures
        sized_bytes(data).len() == 8 + data.len(),
        be_value(sized_bytes(data).subrange(0, 8)) == data.len(),
        sized_bytes(data).skip(8) == data,
{
    be_bytes_len(data.len(), 8);
    byte_ranges();
    be_round_trip(data.len(), 8);
    assert(sized_bytes(data).subrange(0, 8) =~= be_bytes(data.len(), 8));
    assert(sized_bytes(data).skip(8) =~= data);
}

/// Reading the bytes of a well-formed request gives that request.
pub proof fn request_round_trip(request: RequestView)
    requires
        request.well_formed(),
    ensures
        received(request_bytes(request)) == ReceivedView::Complete(request),
{
    let bytes = request_bytes(request);
    let hash = request.hash();
    let at: int = 2 + hash.len() as int;
    wire_text_round_trip(hash);
    assert(bytes.subrange(2, at) =~= wire_bytes(hash));
    if let RequestView::PutBlob { body, .. } = request {
        sized_bytes_layout(body);
        assert(bytes.subrange(at, at + 8) =~= sized_bytes(body).subrange(0, 8));
        assert(bytes.subrange(at + 8, at + 8 + body.len()) =~= body);
    }
}

/// Of an incomplete well-formed request, the reader asks for at least one byte more and never
/// for more than is still to come.
pub proof fn request_is_read_to_its_end(request: RequestView, count: int)
    requires
        request.well_formed(),
        0 <= count < request_bytes(request).len(),
    ensures
        received(request_bytes(request).take(count)) matches ReceivedView::More(n) && 1 <= n
            && count + n <= request_bytes(request).len(),
{
    let bytes = request_bytes(request);
    let front = bytes.take(count);
    let hash = request.hash();
    let at: int = 2 + hash.len() as int;
    wire_text_round_trip(hash);
    if let RequestView::PutBlob { body, .. } = request {
        sized_bytes_layout(body);
        if count >= at {
            assert(front.subrange(2, at) =~= wire_bytes(hash));
        }
        if count >= at + 8 {
            assert(front.subrange(at, at + 8) =~= sized_bytes(body).subrange(0, 8));
        }
    }
}

/// Once a request is complete or refused, bytes behind it change nothing.
pub proof fn request_ends_where_it_ends(buf: Seq<u8>, rest: Seq<u8>)
    requires
        received(buf) !is More,
    ensures
        received(buf + rest) == received(buf),
{
    let all = buf + rest;
    if buf.len() >= 2 && buf.len() >= 2 + buf[1] {
        let at: int = 2 + buf[1] as int;
        assert(all.subrange(2, at) =~= buf.subrange(2, at));
        if buf.len() >= at + 8 {
            assert(all.subrange(at, at + 8) =~= buf.subrange(at, at + 8));
            let size = be_value(buf.subrange(at, at + 8));
            if buf.len() >= at + 8 + size {
                assert(all.subrange(at + 8, at + 8 + size) =~= buf.subrange(
                    at + 8,
                    at + 8 + size,
                ));
            }
        }
    }
}

/// An upload that is too large is refused on its length field, before any of its body.
pub proof fn large_body_is_refused(hash: Seq<char>, body: Seq<u8>, count: int)
    requires
        is_hex_text(hash),
        hash.len() <= 255,
        MAX_BLOB_BYTES < body.len() <= u64::MAX,
        0 <= count <= body.len(),
    ensures
        received(
            request_bytes(RequestView::PutBlob { hash, body }).take(10 + hash.len() + count),
        ) == ReceivedView::Refused(Refusal::BodyTooLarge),
{
    let bytes = request_bytes(RequestView::PutBlob { hash, body });
    let front = bytes.take(10 + hash.len() + count);
    let at: int = 2 + hash.len() as int;
    wire_text_round_trip(hash);
    sized_bytes_layout(body);
    assert(front.subrange(2, at) =~= wire_bytes(hash));
    assert(front.subrange(at, at + 8) =~= sized_bytes(body).subrange(0, 8));
}

/// The protocol's name is its text, and the largest body is three times 1024 times 1024 bytes.
pub proof fn protocol_limits(i: int)
    ensures
        "lbry-blob-iroh/1"@.len() == ALPN@.len(),
        0 <= i < ALPN@.len() ==> ALPN@[i] == "lbry-blob-iroh/1"@[i] as u8,
        MAX_BLOB_BYTES == 3 * 1024 * 1024,
{
    reveal_strlit("lbry-blob-iroh/1");
}

/// A request's view has its hash and its body.
pub proof fn request_view_is_whole(request: Request)
    ensures
        request matches Request::Have { hash } ==> request@ == (RequestView::Have { hash: hash@ }),
        request matches Request::GetBlob { hash } ==> request@ == (RequestView::GetBlob {
            hash: hash@,
        }),
        request matches Request::PutBlob { hash, body } ==> request@ == (RequestView::PutBlob {
            hash: hash@,
            body: body@,
        }),
{
}

/// The view of what was received is a request exactly if that is one, with the same hash and
/// body; and it has the same number of bytes to wait for, or the same refusal.
pub proof fn received_view_is_whole(received: Received)
    ensures
        received matches Received::More(n) ==> received@ == ReceivedView::More(n as nat),
        received matches Received::Complete(request) ==> received@ == ReceivedView::Complete(
            request@,
        ),
        received matches Received::Refused(refusal) ==> received@ == ReceivedView::Refused(refusal),
{
}

/// Every request whose hash is at most 255 hexadecimal digits can be written, whatever its body,
/// and no other; a server takes it up unless its body has more than three mebibytes.
pub proof fn what_can_be_asked(hash: Seq<char>, body: Seq<u8>)
    ensures
        (RequestView::Have { hash }).writable() <==> is_hex_text(hash) && hash.len() <= 255,
        (RequestView::GetBlob { hash }).writable() <==> is_hex_text(hash) && hash.len() <= 255,
        (RequestView::PutBlob { hash, body }).writable() <==> is_hex_text(hash) && hash.len()
            <= 255,
        (RequestView::Have { hash }).well_formed() <==> is_hex_text(hash) && hash.len() <= 255,
        (RequestView::GetBlob { hash }).well_formed() <==> is_hex_text(hash) && hash.len() <= 255,
        (RequestView::PutBlob { hash, body }).well_formed() <==> is_hex_text(hash) && hash.len()
            <= 255 && body.len() <= 3 * 1024 * 1024,
{
}

/// The bytes of a request: its command, one, two or three; the length of its hash in one byte;
/// the hash, one byte for each digit; and for an upload, the length of its body in eight bytes
/// and the body.
pub proof fn request_layout(hash: Seq<char>, body: Seq<u8>)
    requires
        is_hex_text(hash),
        hash.len() <= 255,
        body.len() <= u64::MAX,
    ensures
        ({
            let have = request_bytes(RequestView::Have { hash });
            let get = request_bytes(RequestView::GetBlob { hash });
            let put = request_bytes(RequestView::PutBlob { hash, body });
            let at: int = 2 + hash.len() as int;
            &&& have[0] == 1 && get[0] == 2 && put[0] == 3
            &&& have.len() == at && get.len() == at && put.len() == at + 8 + body.len()
            &&& have[1] == hash.len() && get[1] == hash.len() && put[1] == hash.len()
            &&& forall|i: int|
                0 <= i < hash.len() ==> {
                    &&& have[2 + i] as char == #[trigger] hash[i]
                    &&& get[2 + i] as char == hash[i]
                    &&& put[2 + i] as char == hash[i]
                }
            &&& be_value(put.subrange(at, at + 8)) == body.len()
            &&& put.skip(at + 8) == body
        }),
{
    let put = request_bytes(RequestView::PutBlob { hash, body });
    let at: int = 2 + hash.len() as int;
    sized_bytes_layout(body);
    assert(put.subrange(at, at + 8) =~= sized_bytes(body).subrange(0, 8));
    assert(put.skip(at + 8) =~= body);
    assert forall|i: int| 0 <= i < hash.len() implies (hash[i] as u8) as char == #[trigger] hash[i]
        && put[2 + i] == hash[i] as u8 by {
        assert(is_hex_char(hash[i]));
    }
}

/// A request that was read is one that was sent: its bytes are what came in first.
pub proof fn read_request_was_sent(buf: Seq<u8>, request: RequestView)
    requires
        received(buf) == ReceivedView::Complete(request),
    ensures
        request.well_formed(),
        request_bytes(request).is_prefix_of(buf),
{
    let at: int = 2 + buf[1] as int;
    let field = buf.subrange(2, at);
    let hash = wire_text(field);
    assert(wire_bytes(hash) =~= field);
    let bytes = request_bytes(request);
    if buf[0] == CMD_PUT {
        let length = buf.subrange(at, at + 8);
        be_field_round_trip(length);
        let size: int = be_value(length) as int;
        let body = buf.subrange(at + 8, at + 8 + size);
        assert(request == (RequestView::PutBlob { hash, body }));
        assert(sized_bytes(body) =~= buf.subrange(at, at + 8 + size));
        assert(bytes =~= buf.take(at + 8 + size));
    } else {
        assert(bytes =~= buf.take(at));
    }
}

/// Requests are refused for three reasons: the command is not one, two or three; the hash has a
/// byte that is no hexadecimal digit; the body of an upload has more than three mebibytes. Each
/// is told as soon as the bytes show it.
pub proof fn reasons_to_refuse(buf: Seq<u8>, command: Command)
    ensures
        received(buf) == ReceivedView::Refused(Refusal::UnknownCommand) <==> buf.len() >= 2
            && buf[0] != 1 && buf[0] != 2 && buf[0] != 3,
        received(buf) == ReceivedView::Refused(Refusal::BadHash { command }) <==> {
            &&& buf.len() >= 2
            &&& buf[0] == (match command {
                Command::Have => 1u8,
                Command::GetBlob => 2u8,
                Command::PutBlob => 3u8,
            })
            &&& buf.len() >= 2 + buf[1]
            &&& exists|i: int| 2 <= i < 2 + buf[1] && !is_hex_char(#[trigger] buf[i] as char)
        },
        received(buf) == ReceivedView::Refused(Refusal::BodyTooLarge) <==> {
            &&& buf.len() >= 10 + buf[1]
            &&& buf[0] == 3
            &&& forall|i: int| 2 <= i < 2 + buf[1] ==> is_hex_char(#[trigger] buf[i] as char)
            &&& be_value(buf.subrange(2 + buf[1], 10 + buf[1])) > 3 * 1024 * 1024
        },
{
    if buf.len() >= 2 && buf.len() >= 2 + buf[1] {
        let text = wire_text(buf.subrange(2, 2 + buf[1]));
        assert forall|i: int| 2 <= i < 2 + buf[1] implies text[i - 2] == #[trigger] buf[i] as char
            && is_hex_char(text[i - 2]) == is_hex_char(buf[i] as char) by {}
        if !is_hex_text(text) {
            let j = choose|j: int| 0 <= j < text.len() && !is_hex_char(#[trigger] text[j]);
            assert(!is_hex_char(buf[j + 2] as char));
        } else {
            assert forall|i: int| 2 <= i < 2 + buf[1] implies is_hex_char(
                #[trigger] buf[i] as char,
            ) by {
                assert(is_hex_char(text[i - 2]));
            }
        }
    }
}

} // verus!
