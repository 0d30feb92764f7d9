//! The blob store of a superpeer: a directory with one file for each blob.

use std::path::PathBuf;
use std::sync::Arc;

use vstd::prelude::*;
use vstd::utf8::is_ascii_chars;

use crate::hash::{
    hash_matches, hex_text_is_ascii, hexadecimal_text, is_hex, is_hex_text, matching_hash_is_hex,
    HASH_HEX_LEN,
};
use crate::protocol::{request_bytes, request_round_trip, RequestView, MAX_BLOB_BYTES};
use crate::reply::{blob_reply_round_trip, get_received, GetReplyView, Status};
use crate::serve::{load_reply, serve, upload_outcome, LoadFor, ServeView};
use crate::text::{ascii_lower, lower_text, to_chars};

verus! {

/// A path of the file system, as `std` holds it.
#[verifier::external_type_specification]
#[verifier::external_body]
pub struct ExPathBuf(PathBuf);

/// The conversion of a value to its own type, which `std` documents to return the value
/// unchanged.
pub assume_specification<T>[ <T as From<T>>::from ](t: T) -> (r: T)
    ensures
        r == t,
;

/// The Unicode lowercase form of `s`, which `str::to_lowercase` computes.
pub uninterp spec fn unicode_lowercase(s: Seq<char>) -> Seq<char>;

/// The lowercase form of `s`: of ASCII text, `s` with its capitals in lowercase.
pub open spec fn lowercase_of(s: Seq<char>) -> Seq<char> {
    if is_ascii_chars(s) {
        lower_text(s)
    } else {
        unicode_lowercase(s)
    }
}

/// Calls `str::to_lowercase`: the result is the Unicode lowercase form, which for ASCII text
/// changes the capitals and nothing else.
#[verifier::external_body]
fn to_lowercase(s: &str) -> (r: String)
    ensures
        is_ascii_chars(s@) ==> r@ == lower_text(s@),
        !is_ascii_chars(s@) ==> r@ == unicode_lowercase(s@),
{
    s.to_lowercase()
}

/// A blob store in a directory of the file system.
pub struct FsBlobStore {
    dir: Arc<PathBuf>,
}

/// What came of reading a file.
#[derive(Debug)]
pub enum FileRead {
    Read(Vec<u8>),
    Missing,
    Failed,
}

/// What came of reading a file, in terms of its bytes.
pub enum FileReadView {
    Read(Seq<u8>),
    Missing,
    Failed,
}

impl View for FileRead {
    type V = FileReadView;

    open spec fn view(&self) -> FileReadView {
        match self {
            FileRead::Read(data) => FileReadView::Read(data@),
            FileRead::Missing => FileReadView::Missing,
            FileRead::Failed => FileReadView::Failed,
        }
    }
}

/// Where a blob is looked for, in this order.
#[derive(Clone, Copy, Debug, PartialEq, Eq, Structural)]
pub enum LoadStage {
    /// By the blob loader, which knows how blobs are kept.
    Blob,
    /// In the file named by the hash in lowercase.
    Lowercase,
    /// In the file named by the hash as it was given.
    Verbatim,
}

/// What to read for a blob.
#[derive(Debug)]
pub enum LoadRequest {
    /// The blob with this hash, by the blob loader.
    Blob { hash: String },
    /// The file of this name in the store's directory.
    File { name: String },
}

/// What to read for a blob, in terms of text.
pub enum LoadRequestView {
    Blob { hash: Seq<char> },
    File { name: Seq<char> },
}

impl View for LoadRequest {
    type V = LoadRequestView;

    open spec fn view(&self) -> LoadRequestView {
        match self {
            LoadRequest::Blob { hash } => LoadRequestView::Blob { hash: hash@ },
            LoadRequest::File { name } => LoadRequestView::File { name: name@ },
        }
    }
}

/// The search for one blob.
#[derive(Debug)]
pub struct BlobLoad {
    pub hash: String,
    pub stage: LoadStage,
}

/// How the search for a blob goes on.
#[derive(Debug)]
pub enum LoadStep {
    /// Look at the next place.
    Next(BlobLoad),
    /// The blob.
    Found(Vec<u8>),
    /// There is no such blob.
    NotFound,
    /// A file is there and cannot be read.
    Failed,
}

/// How the search goes on, in terms of stages and bytes.
pub enum LoadStepView {
    Next(LoadStage),
    Found(Seq<u8>),
    NotFound,
    Failed,
}

/// What to read at a stage of the search for `hash`.
pub open spec fn load_request(hash: Seq<char>, stage: LoadStage) -> LoadRequestView {
    match stage {
        LoadStage::Blob => LoadRequestView::Blob { hash },
        LoadStage::Lowercase => LoadRequestView::File { name: lowercase_of(hash) },
        LoadStage::Verbatim => LoadRequestView::File { name: hash },
    }
}

/// How the search goes on from `stage` after a file was read. A failure of the blob loader ends
/// nothing; a file that is there and cannot be read ends the search.
pub open spec fn load_step(stage: LoadStage, read: FileReadView) -> LoadStepView {
    match (stage, read) {
        (_, FileReadView::Read(data)) => LoadStepView::Found(data),
        (LoadStage::Blob, _) => LoadStepView::Next(LoadStage::Lowercase),
        (_, FileReadView::Failed) => LoadStepView::Failed,
        (LoadStage::Lowercase, FileReadView::Missing) => LoadStepView::Next(LoadStage::Verbatim),
        (LoadStage::Verbatim, FileReadView::Missing) => LoadStepView::NotFound,
    }
}

/// How the search ends if the three places read as given.
pub open spec fn load_result(
    blob: FileReadView,
    lowercase: FileReadView,
    verbatim: FileReadView,
) -> LoadStepView {
    let first = load_step(LoadStage::Blob, blob);
    if first == LoadStepView::Next(LoadStage::Lowercase) {
        let second = load_step(LoadStage::Lowercase, lowercase);
        if second == LoadStepView::Next(LoadStage::Verbatim) {
            load_step(LoadStage::Verbatim, verbatim)
        } else {
            second
        }
    } else {
        first
    }
}

/// The write of a blob into a file of the store's directory.
#[derive(Debug)]
pub struct FileWrite {
    pub name: String,
    pub data: Vec<u8>,
}

impl Clone for FsBlobStore {
    /// A store in the same directory.
    fn clone(&self) -> (r: Self)
        ensures
            r.root() == self.root(),
    {
        FsBlobStore { dir: self.dir.clone() }
    }
}

impl FsBlobStore {
    /// The store's directory.
    pub closed spec fn root(&self) -> PathBuf {
        *self.dir
    }

    /// A store in the directory that `dir` converts to.
    pub fn new(dir: impl Into<PathBuf>) -> (r: Self)
        ensures
            call_ensures(<_ as Into<PathBuf>>::into, (dir,), r.root()),
    {
        FsBlobStore { dir: Arc::new(dir.into()) }
    }

    /// The store's directory.
    pub fn dir(&self) -> (r: &PathBuf)
        ensures
            *r == self.root(),
    {
        &*self.dir
    }

    /// Starts the search for the blob with this hash.
    pub fn load(&self, hash_hex: &str) -> (r: BlobLoad)
        ensures
            r.hash@ == hash_hex@,
            r.stage == LoadStage::Blob,
    {
        BlobLoad { hash: hash_hex.to_owned(), stage: LoadStage::Blob }
    }

    /// The write that stores a blob: into the file named by its hash in lowercase.
    pub fn store(&self, hash_hex: &str, data: Vec<u8>) -> (r: FileWrite)
        ensures
            r.name@ == lowercase_of(hash_hex@),
            r.data@ == data@,
    {
        FileWrite { name: to_lowercase(hash_hex), data }
    }
}

impl BlobLoad {
    /// What to read next.
    pub fn request(&self) -> (r: LoadRequest)
        ensures
            r@ == load_request(self.hash@, self.stage),
            self.stage == LoadStage::Blob ==> (r matches LoadRequest::Blob { hash } && hash@
                == self.hash@),
            self.stage == LoadStage::Lowercase ==> (r matches LoadRequest::File { name } && name@
                == lowercase_of(self.hash@)),
            self.stage == LoadStage::Verbatim ==> (r matches LoadRequest::File { name } && name@
                == self.hash@),
    {
        match self.stage {
            LoadStage::Blob => LoadRequest::Blob { hash: self.hash.clone() },
            LoadStage::Lowercase => LoadRequest::File { name: to_lowercase(self.hash.as_str()) },
            LoadStage::Verbatim => LoadRequest::File { name: self.hash.clone() },
        }
    }

    /// Goes on after that was read.
    pub fn step(self, read: FileRead) -> (r: LoadStep)
        ensures
            r matches LoadStep::Next(next) ==> next.hash@ == self.hash@ && load_step(
                self.stage,
                read@,
            ) == LoadStepView::Next(next.stage),
            r matches LoadStep::Found(data) ==> load_step(self.stage, read@)
                == LoadStepView::Found(data@),
            r is NotFound ==> load_step(self.stage, read@) == LoadStepView::NotFound,
            r is Failed ==> load_step(self.stage, read@) == LoadStepView::Failed,
            read matches FileRead::Read(data) ==> (r matches LoadStep::Found(found) && found@
                == data@),
            read !is Read && self.stage == LoadStage::Blob ==> (r matches LoadStep::Next(next)
                && next.stage == LoadStage::Lowercase && next.hash@ == self.hash@),
            read is Missing && self.stage == LoadStage::Lowercase ==> (r matches LoadStep::Next(
                next,
            ) && next.stage == LoadStage::Verbatim && next.hash@ == self.hash@),
            read is Missing && self.stage == LoadStage::Verbatim ==> r is NotFound,
            read is Failed && self.stage != LoadStage::Blob ==> r is Failed,
    {
        match (self.stage, read) {
            (_, FileRead::Read(data)) => LoadStep::Found(data),
            (LoadStage::Blob, _) => LoadStep::Next(
                BlobLoad { hash: self.hash, stage: LoadStage::Lowercase },
            ),
            (_, FileRead::Failed) => LoadStep::Failed,
            (LoadStage::Lowercase, FileRead::Missing) => LoadStep::Next(
                BlobLoad { hash: self.hash, stage: LoadStage::Verbatim },
            ),
            (LoadStage::Verbatim, FileRead::Missing) => LoadStep::NotFound,
        }
    }
}

/// Whether a file of this name holds a blob: blobs are named by their hash.
pub open spec fn is_blob_name(name: Seq<char>) -> bool {
    name.len() == HASH_HEX_LEN && is_hex_text(name)
}

/// The names of blobs among the first `n` of `names`, in order.
pub open spec fn blob_names(names: Seq<String>, n: int) -> Seq<Seq<char>>
    decreases n,
{
    if n <= 0 {
        Seq::empty()
    } else if is_blob_name(names[n - 1]@) {
        blob_names(names, n - 1).push(names[n - 1]@)
    } else {
        blob_names(names, n - 1)
    }
}

/// The texts of some strings.
pub open spec fn texts(strings: Seq<String>) -> Seq<Seq<char>> {
    Seq::new(strings.len(), |i: int| strings[i]@)
}

/// The blobs among the names that a directory was listed with: those that are hashes. Other
/// names, such as `DEMO.json`, are skipped.
pub fn list_blob_hashes(names: &Vec<String>) -> (r: Vec<String>)
    ensures
        texts(r@) == blob_names(names@, names@.len() as int),
        forall|i: int| 0 <= i < r@.len() ==> is_blob_name(#[trigger] r@[i]@),
{
    let mut out: Vec<String> = Vec::new();
    let mut i: usize = 0;
    while i < names.len()
        invariant
            i <= names@.len(),
            texts(out@) == blob_names(names@, i as int),
            forall|j: int| 0 <= j < out@.len() ==> is_blob_name(#[trigger] out@[j]@),
        decreases names@.len() - i,
    {
        let name = names[i].clone();
        let length: usize = to_chars(name.as_str()).len();
        if length == HASH_HEX_LEN && is_hex(name.as_str()) {
            let ghost before = out@;
            out.push(name);
            assert(texts(out@) =~= texts(before).push(names@[i as int]@));
        }
        i += 1;
    }
    out
}

/// A store that is made of a path has that path as its directory.
pub proof fn store_keeps_its_path(path: PathBuf, root: PathBuf)
    requires
        call_ensures(<PathBuf as Into<PathBuf>>::into, (path,), root),
    ensures
        root == path,
{
}

/// What reading the file `name` gives in a directory with the files `files`.
pub open spec fn read_file(files: Map<Seq<char>, Seq<u8>>, name: Seq<char>) -> FileReadView {
    if files.contains_key(name) {
        FileReadView::Read(files[name])
    } else {
        FileReadView::Missing
    }
}

/// The search prefers the blob loader, then the file with the lowercase name, then the file with
/// the name as given; it fails only on a file that cannot be read before one is found.
pub proof fn load_order(blob: FileReadView, lowercase: FileReadView, verbatim: FileReadView)
    ensures
        blob matches FileReadView::Read(data) ==> load_result(blob, lowercase, verbatim)
            == LoadStepView::Found(data),
        blob !is Read ==> (lowercase matches FileReadView::Read(data) ==> load_result(
            blob,
            lowercase,
            verbatim,
        ) == LoadStepView::Found(data)),
        blob !is Read && lowercase is Missing ==> (verbatim matches FileReadView::Read(data)
            ==> load_result(blob, lowercase, verbatim) == LoadStepView::Found(data)),
        load_result(blob, lowercase, verbatim) is NotFound <==> blob !is Read && lowercase
            is Missing && verbatim is Missing,
        load_result(blob, lowercase, verbatim) is Failed <==> blob !is Read && (lowercase
            is Failed || (lowercase is Missing && verbatim is Failed)),
        load_result(blob, lowercase, verbatim) !is Next,
{
}

/// A stored blob is found under its hash in any case, unless the blob loader finds something
/// else first.
pub proof fn stored_blob_is_found(
    files: Map<Seq<char>, Seq<u8>>,
    hash: Seq<char>,
    data: Seq<u8>,
    asked: Seq<char>,
    blob: FileReadView,
)
    requires
        is_hex_text(hash),
        is_hex_text(asked),
        lower_text(asked) == lower_text(hash),
        blob matches FileReadView::Read(other) ==> other == data,
    ensures
        ({
            let after = files.insert(lowercase_of(hash), data);
            load_result(
                blob,
                read_file(after, lowercase_of(asked)),
                read_file(after, asked),
            ) == LoadStepView::Found(data)
        }),
{
    hex_text_is_ascii(hash);
    hex_text_is_ascii(asked);
}

/// What a peer uploads, every peer can download: the upload of a blob under its hash is stored,
/// and the download of that hash, in any case, is answered with exactly that blob, unless the
/// blob loader finds something else first.
pub proof fn uploaded_blob_is_downloaded(
    files: Map<Seq<char>, Seq<u8>>,
    hash: Seq<char>,
    data: Seq<u8>,
    asked: Seq<char>,
    blob: FileReadView,
)
    requires
        hash_matches(data, hash),
        hash_matches(data, asked),
        hash.len() <= 255,
        asked.len() <= 255,
        data.len() <= MAX_BLOB_BYTES,
        blob matches FileReadView::Read(other) ==> other == data,
    ensures
        serve(request_bytes(RequestView::PutBlob { hash, body: data })) == (ServeView::Store {
            hash,
            body: data,
        }),
        serve(request_bytes(RequestView::GetBlob { hash: asked })) == (ServeView::Load {
            hash: asked,
            purpose: LoadFor::GetBlob,
        }),
        ({
            let after = files.insert(lowercase_of(hash), data);
            load_result(
                blob,
                read_file(after, lowercase_of(asked)),
                read_file(after, asked),
            ) == LoadStepView::Found(data)
        }),
        get_received(load_reply(LoadFor::GetBlob, Some(data))) == GetReplyView::Found(data),
        load_reply(LoadFor::Have, Some(data)) == seq![1u8],
{
    matching_hash_is_hex(data, hash);
    matching_hash_is_hex(data, asked);
    upload_outcome(hash, data);
    request_round_trip(RequestView::GetBlob { hash: asked });
    stored_blob_is_found(files, hash, data, asked, blob);
    blob_reply_round_trip(Some(data));
}

/// A blob that is in no file and that the blob loader does not find is answered as not found, and
/// as not there.
pub proof fn missing_blob_is_not_found(
    files: Map<Seq<char>, Seq<u8>>,
    asked: Seq<char>,
    blob: FileReadView,
)
    requires
        !files.contains_key(lowercase_of(asked)),
        !files.contains_key(asked),
        blob !is Read,
    ensures
        load_result(
            blob,
            read_file(files, lowercase_of(asked)),
            read_file(files, asked),
        ) == LoadStepView::NotFound,
        get_received(load_reply(LoadFor::GetBlob, None)) == GetReplyView::Refused(
            Status::NotFound,
        ),
        load_reply(LoadFor::Have, None) == seq![0u8],
{
    blob_reply_round_trip(None);
}

/// Where every name is that of a blob, all of them are taken as they are, in their order.
pub proof fn blobs_alone_are_kept(names: Seq<String>)
    requires
        forall|i: int| 0 <= i < names.len() ==> is_blob_name(#[trigger] names[i]@),
    ensures
        blob_names(names, names.len() as int) == texts(names),
{
    lemma_blobs_alone(names, names.len() as int);
    assert(texts(names).take(names.len() as int) =~= texts(names));
}

proof fn lemma_blobs_alone(names: Seq<String>, n: int)
    requires
        0 <= n <= names.len(),
        forall|i: int| 0 <= i < names.len() ==> is_blob_name(#[trigger] names[i]@),
    ensures
        blob_names(names, n) == texts(names).take(n),
    decreases n,
{
    if n > 0 {
        lemma_blobs_alone(names, n - 1);
        assert(is_blob_name(names[n - 1]@));
        assert(texts(names).take(n - 1).push(names[n - 1]@) =~= texts(names).take(n));
    }
}

/// Every name that is a hash is listed, and no other name is.
pub proof fn every_blob_is_listed(names: Seq<String>, n: int)
    requires
        0 <= n <= names.len(),
    ensures
        forall|i: int| 0 <= i < n && is_blob_name(#[trigger] names[i]@) ==> blob_names(
            names,
            n,
        ).contains(names[i]@),
        forall|j: int| 0 <= j < blob_names(names, n).len() ==> is_blob_name(
            #[trigger] blob_names(names, n)[j],
        ),
        forall|j: int|
            0 <= j < blob_names(names, n).len() ==> exists|i: int|
                0 <= i < n && names[i]@ == #[trigger] blob_names(names, n)[j],
    decreases n,
{
    if n > 0 {
        every_blob_is_listed(names, n - 1);
        let before = blob_names(names, n - 1);
        let after = blob_names(names, n);
        assert forall|i: int| 0 <= i < n && is_blob_name(#[trigger] names[i]@) implies
            after.contains(names[i]@) by {
            if i < n - 1 {
                let k = choose|k: int| 0 <= k < before.len() && before[k] == names[i]@;
                assert(after[k] == names[i]@);
            } else {
                assert(after[before.len() as int] == names[i]@);
            }
        }
    }
}

/// The places where a blob is looked for: by the blob loader under the hash as it was given, then
/// in the file with the hash in lowercase as its name, then in the one with the hash as given.
pub proof fn places_to_look(hash: Seq<char>)
    ensures
        load_request(hash, LoadStage::Blob) == (LoadRequestView::Blob { hash }),
        load_request(hash, LoadStage::Verbatim) == (LoadRequestView::File { name: hash }),
        is_hex_text(hash) ==> load_request(hash, LoadStage::Lowercase) == (LoadRequestView::File {
            name: lower_text(hash),
        }),
        load_request(hash, LoadStage::Lowercase) == (LoadRequestView::File {
            name: lowercase_of(hash),
        }),
{
    if is_hex_text(hash) {
        hex_text_is_ascii(hash);
    }
}

/// What is read is what is found, at every place. Where nothing is read, the search goes on behind
/// the blob loader in any case, and behind a file only if there is none of that name.
pub proof fn search_takes_what_it_reads(stage: LoadStage, data: Seq<u8>)
    ensures
        load_step(stage, FileReadView::Read(data)) == LoadStepView::Found(data),
        load_step(LoadStage::Blob, FileReadView::Missing) == LoadStepView::Next(
            LoadStage::Lowercase,
        ),
        load_step(LoadStage::Blob, FileReadView::Failed) == LoadStepView::Next(
            LoadStage::Lowercase,
        ),
        load_step(LoadStage::Lowercase, FileReadView::Missing) == LoadStepView::Next(
            LoadStage::Verbatim,
        ),
        load_step(LoadStage::Verbatim, FileReadView::Missing) == LoadStepView::NotFound,
        stage != LoadStage::Blob ==> load_step(stage, FileReadView::Failed)
            == LoadStepView::Failed,
{
}

/// The views of what is read, and of what was, have the same text and bytes.
pub proof fn file_views_are_whole(read: FileRead, request: LoadRequest)
    ensures
        read matches FileRead::Read(data) ==> read@ == FileReadView::Read(data@),
        read is Missing ==> read@ == FileReadView::Missing,
        read is Failed ==> read@ == FileReadView::Failed,
        request matches LoadRequest::Blob { hash } ==> request@ == (LoadRequestView::Blob {
            hash: hash@,
        }),
        request matches LoadRequest::File { name } ==> request@ == (LoadRequestView::File {
            name: name@,
        }),
{
}

/// ASCII text is put in lowercase character by character; so is every hash. Other text becomes
/// its Unicode lowercase form.
pub proof fn lowercase_of_a_hash(s: Seq<char>, i: int)
    ensures
        is_ascii_chars(s) || is_hex_text(s) ==> lowercase_of(s).len() == s.len(),
        (is_ascii_chars(s) || is_hex_text(s)) && 0 <= i < s.len() ==> lowercase_of(s)[i]
            == ascii_lower(s[i]),
        !is_ascii_chars(s) ==> lowercase_of(s) == unicode_lowercase(s),
{
    if is_hex_text(s) {
        hex_text_is_ascii(s);
    }
}

/// A file holds a blob exactly if its name is 96 hexadecimal digits, in either case.
pub proof fn names_of_blobs(name: Seq<char>)
    ensures
        is_blob_name(name) <==> name.len() == 96 && forall|i: int|
            0 <= i < name.len() ==> "0123456789abcdefABCDEF"@.contains(#[trigger] name[i]),
{
    hexadecimal_text(name);
}

/// Texts stand in the order of their strings.
pub proof fn texts_keep_their_order(strings: Seq<String>, i: int)
    requires
        0 <= i < strings.len(),
    ensures
        texts(strings).len() == strings.len(),
        texts(strings)[i] == strings[i]@,
{
}

/// A listing goes through the names from front to back: what is taken of a list is what is taken
/// of its first part and then of the rest, and of one name, that name if it is one of a blob.
pub proof fn listing_goes_front_to_back(names: Seq<String>, k: int, n: int)
    requires
        0 <= k <= n <= names.len(),
    ensures
        blob_names(names, n) == blob_names(names, k) + blob_names(names.skip(k), n - k),
        n > 0 && is_blob_name(names[0]@) ==> blob_names(names, 1) == seq![names[0]@],
        n > 0 && !is_blob_name(names[0]@) ==> blob_names(names, 1).len() == 0,
        blob_names(names, 0).len() == 0,
    decreases n,
{
    reveal_with_fuel(blob_names, 2);
    assert(n > 0 && is_blob_name(names[0]@) ==> blob_names(names, 1) =~= seq![names[0]@]);
    if k == n {
        assert(blob_names(names, n) =~= blob_names(names, k) + blob_names(names.skip(k), 0));
    } else {
        listing_goes_front_to_back(names, k, n - 1);
        assert(names.skip(k)[n - k - 1] == names[n - 1]);
        assert(blob_names(names, n) =~= blob_names(names, k) + blob_names(names.skip(k), n - k));
    }
}

} // verus!
