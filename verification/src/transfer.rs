//! Laws of uploads and downloads together: what was uploaded is downloaded, whole streams included.

use vstd::prelude::*;

use crate::hash::{
    hash_matches, hex_text_is_ascii, is_hex_text, matching_hash_is_hex, HASH_HEX_LEN,
};
use crate::protocol::{request_bytes, RequestView, MAX_BLOB_BYTES};
use crate::reply::{blob_reply_round_trip, get_received, GetReplyView};
use crate::serve::{load_reply, lookup_outcome, serve, upload_outcome, LoadFor, ServeView};
use crate::store::{load_result, lowercase_of, read_file, FileReadView, LoadStepView};
use crate::stream::{stream_is_its_plaintexts, AssemblyView};
use crate::text::lower_text;
use crate::upload::{upload_goes_through_the_list, DirUploadView};

verus! {

/// The files of a store after the first `n` of some blobs were stored in it, one after the other.
pub open spec fn upload_all(
    files: Map<Seq<char>, Seq<u8>>,
    hashes: Seq<Seq<char>>,
    bodies: Seq<Seq<u8>>,
    n: nat,
) -> Map<Seq<char>, Seq<u8>>
    decreases n,
{
    if n == 0 {
        files
    } else {
        upload_all(files, hashes, bodies, (n - 1) as nat).insert(
            lowercase_of(hashes[n - 1]),
            bodies[n - 1],
        )
    }
}

/// Whether these are the hashes and the contents of blobs that a superpeer takes: each blob has
/// its hash and is not too large, and one hash stands for one blob.
pub open spec fn uploadable(hashes: Seq<Seq<char>>, bodies: Seq<Seq<u8>>) -> bool {
    &&& hashes.len() == bodies.len()
    &&& forall|i: int|
        0 <= i < hashes.len() ==> {
            &&& (#[trigger] hashes[i]).len() == HASH_HEX_LEN
            &&& hash_matches(bodies[i], hashes[i])
            &&& bodies[i].len() <= MAX_BLOB_BYTES
        }
    &&& forall|i: int, j: int|
        0 <= i < hashes.len() && 0 <= j < hashes.len() && lower_text(#[trigger] hashes[i])
            == lower_text(#[trigger] hashes[j]) ==> bodies[i] == bodies[j]
}

/// Whether `body` is the blob that was uploaded under `hash`, in either case.
pub open spec fn is_uploaded(
    hashes: Seq<Seq<char>>,
    bodies: Seq<Seq<u8>>,
    hash: Seq<char>,
    body: Seq<u8>,
) -> bool {
    exists|i: int|
        0 <= i < hashes.len() && lower_text(#[trigger] hashes[i]) == lower_text(hash) && bodies[i]
            == body
}

/// What the search for a blob comes to in a store with these files, if the blob loader finds
/// what `loader` says.
pub open spec fn lookup(
    files: Map<Seq<char>, Seq<u8>>,
    loader: spec_fn(Seq<char>) -> FileReadView,
    hash: Seq<char>,
) -> LoadStepView {
    load_result(loader(hash), read_file(files, lowercase_of(hash)), read_file(files, hash))
}

/// Whether the blob loader finds nothing but what is in the files with lowercase names.
pub open spec fn loader_agrees(
    files: Map<Seq<char>, Seq<u8>>,
    loader: spec_fn(Seq<char>) -> FileReadView,
) -> bool {
    forall|hash: Seq<char>| #[trigger]
        loader(hash) is Read ==> loader(hash) == read_file(files, lowercase_of(hash))
}

/// The plaintexts of some blobs, in order, each decrypted with the key and its own initialization
/// vector.
pub open spec fn decrypted(
    stream: AssemblyView,
    blobs: Seq<Seq<u8>>,
    decrypt: spec_fn(Seq<u8>, Seq<char>, Seq<char>) -> Seq<u8>,
) -> Seq<Seq<u8>> {
    Seq::new(blobs.len(), |i: int| decrypt(blobs[i], stream.key, stream.blobs[i].iv))
}

proof fn lemma_file_after_upload(
    a: Map<Seq<char>, Seq<u8>>,
    b: Map<Seq<char>, Seq<u8>>,
    hashes: Seq<Seq<char>>,
    bodies: Seq<Seq<u8>>,
    n: nat,
    name: Seq<char>,
)
    requires
        n <= hashes.len(),
    ensures
        (exists|i: int| 0 <= i < n && lowercase_of(#[trigger] hashes[i]) == name) ==> {
            &&& upload_all(a, hashes, bodies, n).contains_key(name)
            &&& upload_all(b, hashes, bodies, n).contains_key(name)
            &&& upload_all(a, hashes, bodies, n)[name] == upload_all(b, hashes, bodies, n)[name]
        },
        !(exists|i: int| 0 <= i < n && lowercase_of(#[trigger] hashes[i]) == name) ==> {
            &&& upload_all(a, hashes, bodies, n).contains_key(name) == a.contains_key(name)
            &&& upload_all(a, hashes, bodies, n)[name] == a[name]
        },
    decreases n,
{
    if n > 0 {
        lemma_file_after_upload(a, b, hashes, bodies, (n - 1) as nat, name);
        assert(lowercase_of(hashes[n - 1]) == name ==> exists|i: int|
            0 <= i < n && lowercase_of(#[trigger] hashes[i]) == name);
    }
}

proof fn lemma_uploaded_file(
    files: Map<Seq<char>, Seq<u8>>,
    hashes: Seq<Seq<char>>,
    bodies: Seq<Seq<u8>>,
    n: nat,
    i: int,
)
    requires
        uploadable(hashes, bodies),
        n <= hashes.len(),
        0 <= i < n,
    ensures
        upload_all(files, hashes, bodies, n).contains_key(lower_text(hashes[i])),
        upload_all(files, hashes, bodies, n)[lower_text(hashes[i])] == bodies[i],
    decreases n,
{
    matching_hash_is_hex(bodies[n - 1], hashes[n - 1]);
    hex_text_is_ascii(hashes[n - 1]);
    if i < n - 1 {
        lemma_uploaded_file(files, hashes, bodies, (n - 1) as nat, i);
    }
}

/// A blob is found under its hash in one case exactly as in another, provided that its file has
/// the name in lowercase, or that no file has the name in either case, and that the blob loader,
/// whose answers may differ with the case, finds nothing else. In the first case what is found is
/// what the file holds.
pub proof fn hash_case_does_not_matter(
    files: Map<Seq<char>, Seq<u8>>,
    loader: spec_fn(Seq<char>) -> FileReadView,
    hash: Seq<char>,
    asked: Seq<char>,
)
    requires
        is_hex_text(hash),
        is_hex_text(asked),
        lower_text(asked) == lower_text(hash),
        files.contains_key(lowercase_of(hash)) || (!files.contains_key(hash)
            && !files.contains_key(asked)),
        loader_agrees(files, loader),
    ensures
        lookup(files, loader, asked) == lookup(files, loader, hash),
        files.contains_key(lowercase_of(hash)) ==> lookup(files, loader, asked)
            == LoadStepView::Found(files[lowercase_of(hash)]),
        !files.contains_key(lowercase_of(hash)) ==> lookup(files, loader, asked)
            == LoadStepView::NotFound,
{
    hex_text_is_ascii(hash);
    hex_text_is_ascii(asked);
}

/// Uploading a directory again changes nothing: the store has the files that it had after the
/// first time, and as many blobs count as uploaded.
pub proof fn second_upload_changes_nothing(
    files: Map<Seq<char>, Seq<u8>>,
    hashes: Seq<Seq<char>>,
    bodies: Seq<Seq<u8>>,
)
    requires
        hashes.len() == bodies.len(),
    ensures
        ({
            let after = upload_all(files, hashes, bodies, hashes.len());
            upload_all(after, hashes, bodies, hashes.len()) == after
        }),
        DirUploadView::start(hashes).stored_times(hashes.len()).uploaded == hashes.len(),
{
    let n = hashes.len();
    let once = upload_all(files, hashes, bodies, n);
    let twice = upload_all(once, hashes, bodies, n);
    assert forall|name: Seq<char>|
        twice.contains_key(name) == #[trigger] once.contains_key(name) && twice[name]
            == once[name] by {
        lemma_file_after_upload(once, files, hashes, bodies, n, name);
    }
    assert(twice =~= once);
    upload_goes_through_the_list(hashes, bodies);
}

/// Every blob of an uploaded directory is downloaded: the superpeer stores each upload as it was
/// sent, and after the last one answers the download of any of the hashes, in either case, with
/// exactly that blob, provided that the blob loader finds nothing else.
pub proof fn uploaded_directory_is_downloaded(
    files: Map<Seq<char>, Seq<u8>>,
    hashes: Seq<Seq<char>>,
    bodies: Seq<Seq<u8>>,
    loader: spec_fn(Seq<char>) -> FileReadView,
    asked: Seq<char>,
    body: Seq<u8>,
)
    requires
        uploadable(hashes, bodies),
        loader_agrees(upload_all(files, hashes, bodies, hashes.len()), loader),
        is_uploaded(hashes, bodies, asked, body),
    ensures
        forall|i: int|
            0 <= i < hashes.len() ==> serve(
                #[trigger] DirUploadView::start(hashes).stored_times(i as nat).message(bodies[i]),
            ) == (ServeView::Store { hash: hashes[i], body: bodies[i] }),
        hash_matches(body, asked),
        serve(request_bytes(RequestView::GetBlob { hash: asked })) == (ServeView::Load {
            hash: asked,
            purpose: LoadFor::GetBlob,
        }),
        lookup(upload_all(files, hashes, bodies, hashes.len()), loader, asked)
            == LoadStepView::Found(body),
        get_received(load_reply(LoadFor::GetBlob, Some(body))) == GetReplyView::Found(body),
{
    upload_goes_through_the_list(hashes, bodies);
    assert forall|i: int| 0 <= i < hashes.len() implies serve(
        #[trigger] DirUploadView::start(hashes).stored_times(i as nat).message(bodies[i]),
    ) == (ServeView::Store { hash: hashes[i], body: bodies[i] }) by {
        matching_hash_is_hex(bodies[i], hashes[i]);
        upload_outcome(hashes[i], bodies[i]);
    }
    let i = choose|i: int|
        0 <= i < hashes.len() && lower_text(#[trigger] hashes[i]) == lower_text(asked) && bodies[i]
            == body;
    lemma_uploaded_file(files, hashes, bodies, hashes.len(), i);
    assert(lower_text(asked).len() == asked.len() && lower_text(hashes[i]).len()
        == hashes[i].len());
    matching_hash_is_hex(body, asked);
    hex_text_is_ascii(asked);
    lookup_outcome(asked);
    blob_reply_round_trip(Some(body));
}

/// A stream that was uploaded is fetched: if its descriptor and its blobs are among what was
/// uploaded, and its blobs decrypt to `data`, then the superpeer answers the download of the
/// descriptor and of every blob with what was uploaded, every one of them has its hash, and what
/// is put together of them is `data`. That blobs decrypt to what they were made of rests with
/// whoever made them.
pub proof fn uploaded_stream_is_fetched(
    files: Map<Seq<char>, Seq<u8>>,
    hashes: Seq<Seq<char>>,
    bodies: Seq<Seq<u8>>,
    loader: spec_fn(Seq<char>) -> FileReadView,
    start: AssemblyView,
    sd_raw: Seq<u8>,
    blobs: Seq<Seq<u8>>,
    decrypt: spec_fn(Seq<u8>, Seq<char>, Seq<char>) -> Seq<u8>,
    data: Seq<u8>,
)
    requires
        uploadable(hashes, bodies),
        loader_agrees(upload_all(files, hashes, bodies, hashes.len()), loader),
        is_uploaded(hashes, bodies, start.sd_hash, sd_raw),
        start.done == 0,
        start.output.len() == 0,
        blobs.len() == start.blobs.len(),
        forall|k: int|
            0 <= k < blobs.len() ==> is_uploaded(
                hashes,
                bodies,
                start.blobs[k].hash,
                #[trigger] blobs[k],
            ),
        decrypted(start, blobs, decrypt).flatten() == data,
    ensures
        ({
            let after = upload_all(files, hashes, bodies, hashes.len());
            let end = start.appended_all(decrypted(start, blobs, decrypt));
            &&& lookup(after, loader, start.sd_hash) == LoadStepView::Found(sd_raw)
            &&& hash_matches(sd_raw, start.sd_hash)
            &&& forall|k: int|
                0 <= k < blobs.len() ==> {
                    &&& lookup(after, loader, start.blobs[k].hash) == LoadStepView::Found(
                        #[trigger] blobs[k],
                    )
                    &&& hash_matches(blobs[k], start.blobs[k].hash)
                }
            &&& end.done == end.blobs.len()
            &&& end.output == data
        }),
{
    uploaded_directory_is_downloaded(files, hashes, bodies, loader, start.sd_hash, sd_raw);
    assert forall|k: int| 0 <= k < blobs.len() implies lookup(
        upload_all(files, hashes, bodies, hashes.len()),
        loader,
        start.blobs[k].hash,
    ) == LoadStepView::Found(#[trigger] blobs[k]) && hash_matches(
        blobs[k],
        start.blobs[k].hash,
    ) by {
        uploaded_directory_is_downloaded(
            files,
            hashes,
            bodies,
            loader,
            start.blobs[k].hash,
            blobs[k],
        );
    }
    stream_is_its_plaintexts(start, decrypted(start, blobs, decrypt));
}

} // verus!
