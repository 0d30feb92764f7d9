//! What a superpeer does with a request, and with a connection.

use vstd::prelude::*;

use crate::hash::{hash_matches, verify_blob_hash, HashMismatch};
use crate::protocol::{
    large_body_is_refused, read_request, received, request_bytes, request_ends_where_it_ends,
    request_is_read_to_its_end, request_round_trip, sized_bytes_layout, Command, Received,
    ReceivedView, Refusal, Request, RequestView, MAX_BLOB_BYTES, STATUS_BAD_REQUEST, STATUS_HASH_MISMATCH, STATUS_OK,
};
use crate::reply::{
    blob_reply, encode_blob_reply, encode_have_reply, encode_status_reply, get_received,
    have_reply, put_received, put_reply_round_trip, reply_layout, status_reply, status_round_trip,
    GetReplyView, PutReply, Status,
};
use crate::wire::be_value;

verus! {

/// What a blob is loaded for.
#[derive(Clone, Copy, Debug, PartialEq, Eq, Structural)]
pub enum LoadFor {
    Have,
    GetBlob,
}

/// What to do next for a request.
#[derive(Debug)]
pub enum ServeAction {
    /// Receive this many bytes more.
    Receive(usize),
    /// Look the blob up, and answer with `answer_load`.
    Load { hash: String, purpose: LoadFor },
    /// Store the blob, and answer with `answer_store`.
    Store { hash: String, body: Vec<u8> },
    /// Send this reply; the request is done.
    Reply(Vec<u8>),
}

/// What to do next for a request, in terms of text and bytes.
pub enum ServeView {
    Receive(nat),
    Load { hash: Seq<char>, purpose: LoadFor },
    Store { hash: Seq<char>, body: Seq<u8> },
    Reply(Seq<u8>),
}

impl View for ServeAction {
    type V = ServeView;

    open spec fn view(&self) -> ServeView {
        match self {
            ServeAction::Receive(n) => ServeView::Receive(*n as nat),
            ServeAction::Load { hash, purpose } => ServeView::Load {
                hash: hash@,
                purpose: *purpose,
            },
            ServeAction::Store { hash, body } => ServeView::Store { hash: hash@, body: body@ },
            ServeAction::Reply(bytes) => ServeView::Reply(bytes@),
        }
    }
}

/// The reply to a request that is not taken up: that the blob is not there, if the request was
/// whether it is; else that the request was bad.
pub open spec fn refusal_reply(refusal: Refusal) -> Seq<u8> {
    if refusal == (Refusal::BadHash { command: Command::Have }) {
        have_reply(false)
    } else {
        status_reply(STATUS_BAD_REQUEST)
    }
}

/// What to do with an upload whose body was or was not found to have the claimed hash.
pub open spec fn upload_action(matches: bool, hash: Seq<char>, body: Seq<u8>) -> ServeView {
    if matches {
        ServeView::Store { hash, body }
    } else {
        ServeView::Reply(status_reply(STATUS_HASH_MISMATCH))
    }
}

/// What to do next for the request whose bytes so far are `input`.
pub open spec fn serve(input: Seq<u8>) -> ServeView {
    match received(input) {
        ReceivedView::More(n) => ServeView::Receive(n),
        ReceivedView::Refused(refusal) => ServeView::Reply(refusal_reply(refusal)),
        ReceivedView::Complete(RequestView::Have { hash }) => ServeView::Load {
            hash,
            purpose: LoadFor::Have,
        },
        ReceivedView::Complete(RequestView::GetBlob { hash }) => ServeView::Load {
            hash,
            purpose: LoadFor::GetBlob,
        },
        ReceivedView::Complete(RequestView::PutBlob { hash, body }) => upload_action(
            hash_matches(body, hash),
            hash,
            body,
        ),
    }
}

/// The answer after a look-up.
pub open spec fn load_reply(purpose: LoadFor, blob: Option<Seq<u8>>) -> Seq<u8> {
    match purpose {
        LoadFor::Have => have_reply(blob is Some),
        LoadFor::GetBlob => blob_reply(blob),
    }
}

/// The contents of an optional blob.
pub open spec fn blob_view(blob: Option<Vec<u8>>) -> Option<Seq<u8>> {
    match blob {
        Some(data) => Some(data@),
        None => None,
    }
}

/// Decides what to do next for the request whose bytes so far are `input`.
pub fn serve_one(input: &[u8]) -> (r: ServeAction)
    ensures
        r@ == serve(input@),
{
    match read_request(input) {
        Received::More(n) => ServeAction::Receive(n),
        Received::Refused(refusal) => ServeAction::Reply(encode_refusal(refusal)),
        Received::Complete(Request::Have { hash }) => ServeAction::Load {
            hash,
            purpose: LoadFor::Have,
        },
        Received::Complete(Request::GetBlob { hash }) => ServeAction::Load {
            hash,
            purpose: LoadFor::GetBlob,
        },
        Received::Complete(Request::PutBlob { hash, body }) => {
            let verdict = verify_blob_hash(body.as_slice(), hash.as_str());
            admit_upload(verdict, hash, body)
        },
    }
}

/// What to do with an upload after the check of its hash.
pub fn admit_upload(verdict: Result<(), HashMismatch>, hash: String, body: Vec<u8>) -> (r:
    ServeAction)
    ensures
        r@ == upload_action(verdict is Ok, hash@, body@),
{
    match verdict {
        Ok(()) => ServeAction::Store { hash, body },
        Err(_) => ServeAction::Reply(encode_status_reply(STATUS_HASH_MISMATCH)),
    }
}

/// Writes the reply to a request that is not taken up.
pub fn encode_refusal(refusal: Refusal) -> (r: Vec<u8>)
    ensures
        r@ == refusal_reply(refusal),
{
    match refusal {
        Refusal::BadHash { command: Command::Have } => encode_have_reply(false),
        _ => encode_status_reply(STATUS_BAD_REQUEST),
    }
}

/// Writes the answer after a look-up.
pub fn answer_load(purpose: LoadFor, blob: &Option<Vec<u8>>) -> (r: Vec<u8>)
    ensures
        r@ == load_reply(purpose, blob_view(*blob)),
        blob matches Some(data) ==> r@ == load_reply(purpose, Some(data@)),
        blob is None ==> r@ == load_reply(purpose, None),
{
    match purpose {
        LoadFor::Have => encode_have_reply(blob.is_some()),
        LoadFor::GetBlob => match blob {
            Some(data) => encode_blob_reply(Some(data.as_slice())),
            None => encode_blob_reply(None),
        },
    }
}

/// Writes the answer after a blob was stored.
pub fn answer_store() -> (r: Vec<u8>)
    ensures
        r@ == status_reply(STATUS_OK),
{
    encode_status_reply(STATUS_OK)
}

/// A blob is stored only under its own hash, and only if it is not too large.
pub proof fn only_verified_blobs_are_stored(input: Seq<u8>, hash: Seq<char>, body: Seq<u8>)
    requires
        serve(input) == (ServeView::Store { hash, body }),
    ensures
        hash_matches(body, hash),
        body.len() <= MAX_BLOB_BYTES,
{
}

/// Every upload has one of three outcomes: too large a body is a bad request, a body without the
/// claimed hash is answered so, and every other body is stored as it was sent.
pub proof fn upload_outcome(hash: Seq<char>, body: Seq<u8>)
    requires
        (RequestView::PutBlob { hash, body }).writable(),
        body.len() <= u64::MAX,
    ensures
        serve(request_bytes(RequestView::PutBlob { hash, body })) == (if body.len()
            > MAX_BLOB_BYTES {
            ServeView::Reply(status_reply(STATUS_BAD_REQUEST))
        } else {
            upload_action(hash_matches(body, hash), hash, body)
        }),
{
    let request = RequestView::PutBlob { hash, body };
    if body.len() > MAX_BLOB_BYTES {
        large_body_is_refused(hash, body, body.len() as int);
        sized_bytes_layout(body);
        assert(request_bytes(request).take(10 + hash.len() + body.len() as int) =~= request_bytes(
            request,
        ));
    } else {
        request_round_trip(request);
    }
}

/// A well-formed `Have` or download looks the named blob up.
pub proof fn lookup_outcome(hash: Seq<char>)
    requires
        (RequestView::Have { hash }).well_formed(),
    ensures
        serve(request_bytes(RequestView::Have { hash })) == (ServeView::Load {
            hash,
            purpose: LoadFor::Have,
        }),
        serve(request_bytes(RequestView::GetBlob { hash })) == (ServeView::Load {
            hash,
            purpose: LoadFor::GetBlob,
        }),
{
    request_round_trip(RequestView::Have { hash });
    request_round_trip(RequestView::GetBlob { hash });
}

/// What a client learns of each refusal: that the request was bad, or of `Have`, that the blob is
/// not there.
pub proof fn refusal_is_told(input: Seq<u8>, refusal: Refusal)
    requires
        received(input) == ReceivedView::Refused(refusal),
    ensures
        serve(input) == ServeView::Reply(refusal_reply(refusal)),
        refusal == (Refusal::BadHash { command: Command::Have }) ==> refusal_reply(refusal)
            == seq![0u8],
        refusal != (Refusal::BadHash { command: Command::Have }) ==> get_received(
            refusal_reply(refusal),
        ) == GetReplyView::Refused(Status::BadRequest) && put_received(refusal_reply(refusal))
            == PutReply::Answered(Status::BadRequest),
{
    status_round_trip(STATUS_BAD_REQUEST);
    assert(status_reply(STATUS_BAD_REQUEST).subrange(0, 4) =~= status_reply(STATUS_BAD_REQUEST));
}

/// What a client learns of its upload: that the blob was stored, or that it does not have the
/// claimed hash.
pub proof fn upload_is_told(hash: Seq<char>, body: Seq<u8>)
    requires
        (RequestView::PutBlob { hash, body }).well_formed(),
    ensures
        hash_matches(body, hash) ==> serve(request_bytes(RequestView::PutBlob { hash, body })) == (
        ServeView::Store { hash, body }) && put_received(status_reply(STATUS_OK))
            == PutReply::Answered(Status::Done),
        !hash_matches(body, hash) ==> (serve(
            request_bytes(RequestView::PutBlob { hash, body }),
        ) matches ServeView::Reply(reply) && put_received(reply) == PutReply::Answered(
            Status::HashMismatch,
        )),
{
    upload_outcome(hash, body);
    put_reply_round_trip(STATUS_OK);
    put_reply_round_trip(STATUS_HASH_MISMATCH);
}

/// What happened on a connection.
#[derive(Clone, Copy, Debug, PartialEq, Eq, Structural)]
pub enum ConnectionEvent {
    /// The connection stands.
    Connected,
    /// The peer opened a stream.
    StreamOpened,
    /// The request on the stream was served.
    RequestServed,
    /// The request on the stream failed.
    RequestFailed,
    /// No further stream can be had.
    Closed,
}

/// What to do on a connection.
#[derive(Clone, Copy, Debug, PartialEq, Eq, Structural)]
pub enum ConnectionAction {
    /// Wait for the peer to open a stream.
    AcceptStream,
    /// Serve the request on the stream.
    ServeRequest,
    /// Leave the connection.
    Leave,
}

/// The next step on a connection: requests are served one after the other, whether they succeed
/// or fail, until the connection closes.
pub fn next_on_connection(event: ConnectionEvent) -> (r: ConnectionAction)
    ensures
        r == ConnectionAction::ServeRequest <==> event == ConnectionEvent::StreamOpened,
        r == ConnectionAction::Leave <==> event == ConnectionEvent::Closed,
{
    match event {
        ConnectionEvent::StreamOpened => ConnectionAction::ServeRequest,
        ConnectionEvent::Closed => ConnectionAction::Leave,
        ConnectionEvent::Connected => ConnectionAction::AcceptStream,
        ConnectionEvent::RequestServed => ConnectionAction::AcceptStream,
        ConnectionEvent::RequestFailed => ConnectionAction::AcceptStream,
    }
}

/// The view of an action names the blob and holds the bytes that the action does.
pub proof fn action_view_is_whole(action: ServeAction)
    ensures
        action matches ServeAction::Receive(n) ==> action@ == ServeView::Receive(n as nat),
        action matches ServeAction::Load { hash, purpose } ==> action@ == (ServeView::Load {
            hash: hash@,
            purpose,
        }),
        action matches ServeAction::Store { hash, body } ==> action@ == (ServeView::Store {
            hash: hash@,
            body: body@,
        }),
        action matches ServeAction::Reply(bytes) ==> action@ == ServeView::Reply(bytes@),
{
}

/// As long as a request that will be taken up is not complete, more of it is received, and never
/// more than is still to come.
pub proof fn incomplete_request_is_awaited(request: RequestView, count: int)
    requires
        request.well_formed(),
        0 <= count < request_bytes(request).len(),
    ensures
        serve(request_bytes(request).take(count)) matches ServeView::Receive(n) && 1 <= n && count
            + n <= request_bytes(request).len(),
{
    request_is_read_to_its_end(request, count);
}

/// The answers after a look-up, byte by byte: one or zero for whether the blob is there; the
/// status zero, the length and the blob for a download, or the status one if there is none.
pub proof fn lookup_answers(data: Seq<u8>)
    requires
        data.len() <= u64::MAX,
    ensures
        load_reply(LoadFor::Have, Some(data)) == seq![1u8],
        load_reply(LoadFor::Have, None) == seq![0u8],
        be_value(load_reply(LoadFor::GetBlob, Some(data)).subrange(0, 4)) == 0,
        be_value(load_reply(LoadFor::GetBlob, Some(data)).subrange(4, 12)) == data.len(),
        load_reply(LoadFor::GetBlob, Some(data)).skip(12) == data,
        load_reply(LoadFor::GetBlob, None).len() == 4,
        be_value(load_reply(LoadFor::GetBlob, None)) == 1,
{
    reply_layout(data);
}

/// Once it is known what to do for a request, bytes behind it change nothing.
pub proof fn bytes_behind_change_nothing(input: Seq<u8>, rest: Seq<u8>)
    requires
        serve(input) !is Receive,
    ensures
        serve(input + rest) == serve(input),
{
    request_ends_where_it_ends(input, rest);
}

/// Refusals, byte by byte: one zero byte for a bad hash if the request was whether a blob is there,
/// the status two for every other bad request, and the status three for a blob with another hash.
pub proof fn refusals_byte_by_byte(refusal: Refusal, hash: Seq<char>, body: Seq<u8>)
    ensures
        refusal == (Refusal::BadHash { command: Command::Have }) ==> refusal_reply(refusal)
            == seq![0u8],
        refusal != (Refusal::BadHash { command: Command::Have }) ==> refusal_reply(refusal).len()
            == 4 && be_value(refusal_reply(refusal)) == 2,
        upload_action(true, hash, body) == (ServeView::Store { hash, body }),
        upload_action(false, hash, body) matches ServeView::Reply(reply) && reply.len() == 4
            && be_value(reply) == 3,
        status_reply(STATUS_OK).len() == 4,
        be_value(status_reply(STATUS_OK)) == 0,
{
    status_round_trip(STATUS_OK);
    status_round_trip(STATUS_BAD_REQUEST);
    status_round_trip(STATUS_HASH_MISMATCH);
}

} // verus!
