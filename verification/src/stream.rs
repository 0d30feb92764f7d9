//! Assembly of a stream: its descriptor and its blobs are fetched, checked against their hashes,
//! decrypted and put together in the descriptor's order.
//!
//! Each step has a type of its own, so that no plaintext can be appended for a blob that was not
//! checked.

use vstd::prelude::*;

use crate::hash::{
    hash_matches, hex_text_is_ascii, is_hex_text, matching_hash_is_hex, verify_blob_hash,
    HashMismatch, HASH_HEX_LEN,
};
use crate::media::{
    ascii_can_be_shortened, decode_filename, media_file_name, media_name, short_hash,
    shorten_hash, stream_filename,
};
use crate::protocol::push_bytes;
use crate::text::{decimal, decimal_text};

verus! {

/// A content blob of a stream: its hash, and the initialization vector of its encryption.
#[derive(Debug)]
pub struct BlobEntry {
    pub blob_hash: String,
    pub iv: String,
}

/// A stream descriptor: the key, the file name in hexadecimal, and the content blobs in order.
#[derive(Debug)]
pub struct StreamDescriptor {
    pub key: String,
    pub filename: String,
    pub blobs: Vec<BlobEntry>,
}

/// A content blob in terms of text.
pub struct BlobEntryView {
    pub hash: Seq<char>,
    pub iv: Seq<char>,
}

/// The content blobs of a descriptor in terms of text.
pub open spec fn entries(blobs: Seq<BlobEntry>) -> Seq<BlobEntryView> {
    Seq::new(
        blobs.len(),
        |i: int| BlobEntryView { hash: blobs[i].blob_hash@, iv: blobs[i].iv@ },
    )
}

/// The text of an optional string.
pub open spec fn text_view(text: Option<String>) -> Option<Seq<char>> {
    match text {
        Some(s) => Some(s@),
        None => None,
    }
}

/// The key to fetch a stream with: the given one, else the descriptor's.
pub open spec fn fetch_key(given: Option<Seq<char>>, sd_key: Seq<char>) -> Seq<char> {
    match given {
        Some(key) => key,
        None => sd_key,
    }
}

/// The key to play a stream with: the given one unless it is empty, else the descriptor's.
pub open spec fn play_key(given: Option<Seq<char>>, sd_key: Seq<char>) -> Seq<char> {
    match given {
        Some(key) => if key.len() > 0 {
            key
        } else {
            sd_key
        },
        None => sd_key,
    }
}

/// Chooses the key to fetch a stream with.
pub fn choose_fetch_key(given: Option<String>, sd_key: String) -> (r: String)
    ensures
        r@ == fetch_key(text_view(given), sd_key@),
        given matches Some(key) ==> r@ == key@,
        given is None ==> r@ == sd_key@,
{
    match given {
        Some(key) => key,
        None => sd_key,
    }
}

/// Chooses the key to play a stream with.
pub fn choose_play_key(given: Option<String>, sd_key: String) -> (r: String)
    ensures
        r@ == play_key(text_view(given), sd_key@),
        given matches Some(key) ==> r@ == (if key@.len() > 0 {
            key@
        } else {
            sd_key@
        }),
        given is None ==> r@ == sd_key@,
{
    match given {
        Some(key) => if key.as_str().is_empty() {
            sd_key
        } else {
            key
        },
        None => sd_key,
    }
}

/// How far the assembly of a stream has got.
pub struct AssemblyView {
    /// The hash of the descriptor.
    pub sd_hash: Seq<char>,
    /// The file name in hexadecimal.
    pub filename: Seq<char>,
    /// The key.
    pub key: Seq<char>,
    /// The content blobs.
    pub blobs: Seq<BlobEntryView>,
    /// The number of blobs whose plaintext was appended.
    pub done: nat,
    /// What was appended.
    pub output: Seq<u8>,
}

impl AssemblyView {
    /// The blob that comes next.
    pub open spec fn current(self) -> BlobEntryView {
        self.blobs[self.done as int]
    }

    /// The assembly after the plaintext of the next blob was appended.
    pub open spec fn appended(self, plain: Seq<u8>) -> AssemblyView {
        AssemblyView { done: self.done + 1, output: self.output + plain, ..self }
    }

    /// The assembly after the plaintexts of the next blobs were appended, one after the other.
    pub open spec fn appended_all(self, plains: Seq<Seq<u8>>) -> AssemblyView
        decreases plains.len(),
    {
        if plains.len() == 0 {
            self
        } else {
            self.appended_all(plains.drop_last()).appended(plains.last())
        }
    }
}

/// A descriptor's bytes that have the hash they were asked for by.
pub struct VerifiedDescriptor {
    sd_hash: String,
    raw: Vec<u8>,
}

/// The assembly of a stream, before a blob is fetched.
pub struct Assembly {
    sd_hash: String,
    filename: String,
    key: String,
    blobs: Vec<BlobEntry>,
    done: usize,
    output: Vec<u8>,
}

/// An assembly that waits for the bytes of its next blob.
pub struct BlobFetch {
    assembly: Assembly,
}

/// An assembly that waits for the plaintext of its next blob, whose bytes were checked.
pub struct BlobDecrypt {
    assembly: Assembly,
    ciphertext: Vec<u8>,
}

/// A stream that was put together.
pub struct Assembled {
    assembly: Assembly,
}

/// What an assembly needs next.
pub enum AssemblyStep {
    Fetch(BlobFetch),
    Done(Assembled),
}

impl VerifiedDescriptor {
    #[verifier::type_invariant]
    spec fn valid(self) -> bool {
        &&& hash_matches(self.raw@, self.sd_hash@)
        &&& is_hex_text(self.sd_hash@)
        &&& self.sd_hash@.len() == HASH_HEX_LEN
    }

    /// The descriptor's hash.
    pub closed spec fn hash(&self) -> Seq<char> {
        self.sd_hash@
    }

    /// The descriptor's bytes.
    pub closed spec fn bytes(&self) -> Seq<u8> {
        self.raw@
    }

    /// Checks the bytes of a descriptor against the hash they were asked for by.
    pub fn check(sd_hash: String, sd_raw: Vec<u8>) -> (r: Result<VerifiedDescriptor, HashMismatch>)
        ensures
            r is Ok <==> hash_matches(sd_raw@, sd_hash@),
            r matches Ok(v) ==> v.hash() == sd_hash@ && v.bytes() == sd_raw@,
    {
        match verify_blob_hash(sd_raw.as_slice(), sd_hash.as_str()) {
            Ok(()) => Ok(VerifiedDescriptor { sd_hash, raw: sd_raw }),
            Err(e) => Err(e),
        }
    }

    /// The bytes to parse, which have the descriptor's hash.
    pub fn raw(&self) -> (r: &Vec<u8>)
        ensures
            r@ == self.bytes(),
            hash_matches(r@, self.hash()),
    {
        proof {
            use_type_invariant(self);
        }
        &self.raw
    }

    /// Starts the assembly of the stream that the checked bytes describe, to fetch it into a
    /// file. A given key takes the place of the descriptor's own.
    pub fn fetch(self, sd: StreamDescriptor, given: Option<String>) -> (r: Assembly)
        ensures
            r@ == assembly_start(
                self.hash(),
                sd,
                fetch_key(text_view(given), sd.key@),
            ),
            starts_with_descriptor(r@, self.hash(), sd),
            given matches Some(key) ==> r@.key == key@,
            given is None ==> r@.key == sd.key@,
    {
        proof {
            use_type_invariant(&self);
        }
        Assembly {
            sd_hash: self.sd_hash,
            filename: sd.filename,
            key: choose_fetch_key(given, sd.key),
            blobs: sd.blobs,
            done: 0,
            output: Vec::new(),
        }
    }

    /// Starts the assembly of the stream that the checked bytes describe, to play it. A given
    /// key that is not empty takes the place of the descriptor's own.
    pub fn play(self, sd: StreamDescriptor, given: Option<String>) -> (r: Assembly)
        ensures
            r@ == assembly_start(
                self.hash(),
                sd,
                play_key(text_view(given), sd.key@),
            ),
            starts_with_descriptor(r@, self.hash(), sd),
            given matches Some(key) ==> r@.key == (if key@.len() > 0 {
                key@
            } else {
                sd.key@
            }),
            given is None ==> r@.key == sd.key@,
    {
        proof {
            use_type_invariant(&self);
        }
        Assembly {
            sd_hash: self.sd_hash,
            filename: sd.filename,
            key: choose_play_key(given, sd.key),
            blobs: sd.blobs,
            done: 0,
            output: Vec::new(),
        }
    }
}

/// Whether nothing was fetched yet of the stream with this hash and descriptor, whose blobs are to
/// come in the descriptor's order.
pub open spec fn starts_with_descriptor(
    start: AssemblyView,
    sd_hash: Seq<char>,
    sd: StreamDescriptor,
) -> bool {
    &&& start.sd_hash == sd_hash
    &&& start.filename == sd.filename@
    &&& start.done == 0
    &&& start.output.len() == 0
    &&& start.blobs.len() == sd.blobs@.len()
    &&& forall|i: int|
        0 <= i < sd.blobs@.len() ==> {
            &&& (#[trigger] start.blobs[i]).hash == sd.blobs@[i].blob_hash@
            &&& start.blobs[i].iv == sd.blobs@[i].iv@
        }
}

/// The assembly of the described stream with this key, before anything was fetched.
pub open spec fn assembly_start(
    sd_hash: Seq<char>,
    sd: StreamDescriptor,
    key: Seq<char>,
) -> AssemblyView {
    AssemblyView {
        sd_hash,
        filename: sd.filename@,
        key,
        blobs: entries(sd.blobs@),
        done: 0,
        output: Seq::empty(),
    }
}

impl View for Assembly {
    type V = AssemblyView;

    closed spec fn view(&self) -> AssemblyView {
        AssemblyView {
            sd_hash: self.sd_hash@,
            filename: self.filename@,
            key: self.key@,
            blobs: entries(self.blobs@),
            done: self.done as nat,
            output: self.output@,
        }
    }
}

impl View for BlobFetch {
    type V = AssemblyView;

    closed spec fn view(&self) -> AssemblyView {
        self.assembly@
    }
}

impl View for BlobDecrypt {
    type V = AssemblyView;

    closed spec fn view(&self) -> AssemblyView {
        self.assembly@
    }
}

impl View for Assembled {
    type V = AssemblyView;

    closed spec fn view(&self) -> AssemblyView {
        self.assembly@
    }
}

impl Assembly {
    #[verifier::type_invariant]
    spec fn valid(self) -> bool {
        &&& is_hex_text(self.sd_hash@)
        &&& self.sd_hash@.len() == HASH_HEX_LEN
        &&& self.done <= self.blobs@.len()
    }

    /// The next blob to fetch, or the stream if every blob was appended.
    pub fn next(self) -> (r: AssemblyStep)
        ensures
            self@.done <= self@.blobs.len(),
            r is Fetch <==> self@.done < self@.blobs.len(),
            r matches AssemblyStep::Fetch(fetch) ==> fetch@ == self@,
            r matches AssemblyStep::Done(stream) ==> stream@ == self@,
    {
        proof {
            use_type_invariant(&self);
        }
        if self.done < self.blobs.len() {
            AssemblyStep::Fetch(BlobFetch { assembly: self })
        } else {
            AssemblyStep::Done(Assembled { assembly: self })
        }
    }
}

impl BlobFetch {
    #[verifier::type_invariant]
    spec fn valid(self) -> bool {
        self.assembly.done < self.assembly.blobs@.len()
    }

    /// The hash of the blob to fetch.
    pub fn hash(&self) -> (r: &str)
        ensures
            self@.done < self@.blobs.len(),
            r@ == self@.current().hash,
            r@ == self@.blobs[self@.done as int].hash,
    {
        proof {
            use_type_invariant(self);
        }
        self.assembly.blobs[self.assembly.done].blob_hash.as_str()
    }

    /// Checks the bytes of the blob against its hash.
    pub fn accept(self, raw: Vec<u8>) -> (r: Result<BlobDecrypt, HashMismatch>)
        ensures
            r is Ok <==> hash_matches(raw@, self@.current().hash),
            r is Ok <==> hash_matches(raw@, self@.blobs[self@.done as int].hash),
            r matches Ok(blob) ==> blob@ == self@ && blob.checked() == raw@,
    {
        proof {
            use_type_invariant(&self);
        }
        match verify_blob_hash(raw.as_slice(), self.hash()) {
            Ok(()) => Ok(BlobDecrypt { assembly: self.assembly, ciphertext: raw }),
            Err(e) => Err(e),
        }
    }
}

impl BlobDecrypt {
    #[verifier::type_invariant]
    spec fn valid(self) -> bool {
        self.assembly.done < self.assembly.blobs@.len() && hash_matches(
            self.ciphertext@,
            self.assembly.blobs@[self.assembly.done as int].blob_hash@,
        )
    }

    /// The bytes that were checked.
    pub closed spec fn checked(&self) -> Seq<u8> {
        self.ciphertext@
    }

    /// The bytes to decrypt, which have the blob's hash.
    pub fn ciphertext(&self) -> (r: &Vec<u8>)
        ensures
            r@ == self.checked(),
            hash_matches(r@, self@.current().hash),
            hash_matches(r@, self@.blobs[self@.done as int].hash),
    {
        proof {
            use_type_invariant(self);
        }
        &self.ciphertext
    }

    /// The key to decrypt with.
    pub fn key(&self) -> (r: &str)
        ensures
            r@ == self@.key,
    {
        self.assembly.key.as_str()
    }

    /// The initialization vector to decrypt with.
    pub fn iv(&self) -> (r: &str)
        ensures
            r@ == self@.current().iv,
            r@ == self@.blobs[self@.done as int].iv,
    {
        proof {
            use_type_invariant(self);
        }
        self.assembly.blobs[self.assembly.done].iv.as_str()
    }

    /// The start of the blob's hash, which stands for it in messages.
    pub fn short_hash(&self) -> (r: &str)
        ensures
            r@ == short_hash(self@.current().hash),
            r@ == short_hash(self@.blobs[self@.done as int].hash),
    {
        proof {
            use_type_invariant(self);
            let hash = self.assembly.blobs@[self.assembly.done as int].blob_hash@;
            matching_hash_is_hex(self.ciphertext@, hash);
            hex_text_is_ascii(hash);
            ascii_can_be_shortened(hash);
        }
        shorten_hash(self.assembly.blobs[self.assembly.done].blob_hash.as_str())
    }

    /// Appends the plaintext.
    pub fn append(self, plain: &[u8]) -> (r: Assembly)
        ensures
            r@ == self@.appended(plain@),
            r@.done == self@.done + 1,
            r@.output == self@.output + plain@,
            r@.blobs == self@.blobs,
            r@.key == self@.key,
            r@.sd_hash == self@.sd_hash,
            r@.filename == self@.filename,
    {
        proof {
            use_type_invariant(&self);
            use_type_invariant(&self.assembly);
        }
        let assembly = self.assembly;
        let count: usize = assembly.blobs.len();
        assert(assembly.done < count);
        let mut output = assembly.output;
        push_bytes(&mut output, plain);
        Assembly {
            sd_hash: assembly.sd_hash,
            filename: assembly.filename,
            key: assembly.key,
            blobs: assembly.blobs,
            done: assembly.done + 1,
            output,
        }
    }
}

impl Assembled {
    #[verifier::type_invariant]
    spec fn valid(self) -> bool {
        self.assembly.done == self.assembly.blobs@.len()
    }

    /// The bytes of the stream.
    pub fn bytes(&self) -> (r: &Vec<u8>)
        ensures
            r@ == self@.output,
    {
        &self.assembly.output
    }

    /// The number of content blobs, every one of which was appended.
    pub fn content_blobs(&self) -> (r: usize)
        ensures
            r == self@.blobs.len(),
            r == self@.done,
    {
        proof {
            use_type_invariant(self);
        }
        self.assembly.blobs.len()
    }

    /// The name of the stream's file.
    pub fn filename(&self) -> (r: String)
        ensures
            r@ == stream_filename(self@.filename),
    {
        decode_filename(self.assembly.filename.as_str())
    }

    /// The name under which the stream is saved.
    pub fn saved_name(&self) -> (r: String)
        ensures
            r@ == media_name(self@.sd_hash, stream_filename(self@.filename)),
            is_hex_text(self@.sd_hash),
    {
        let filename = self.filename();
        proof {
            use_type_invariant(&self.assembly);
            hex_text_is_ascii(self.assembly.sd_hash@);
            ascii_can_be_shortened(self.assembly.sd_hash@);
        }
        media_file_name(self.assembly.sd_hash.as_str(), filename.as_str())
    }
}

/// The answer to a request to play a stream.
#[derive(Debug)]
pub struct PlayResponse {
    pub ok: bool,
    pub filename: String,
    pub bytes: usize,
    pub content_blobs: usize,
    pub media_path: String,
    pub message: String,
}

/// The answer once a stream was put together and saved.
pub fn play_response(stream: &Assembled) -> (r: PlayResponse)
    ensures
        r.ok,
        r.filename@ == stream_filename(stream@.filename),
        r.bytes == stream@.output.len(),
        r.content_blobs == stream@.blobs.len(),
        r.media_path@ == "/media/"@ + media_name(
            stream@.sd_hash,
            stream_filename(stream@.filename),
        ),
        r.message@ == "Verified "@ + decimal(stream@.blobs.len())
            + " LBRY-shaped blobs over Iroh."@,
{
    let content_blobs: usize = stream.content_blobs();
    let message = "Verified ".to_owned().concat(decimal_text(content_blobs as u64).as_str()).concat(
        " LBRY-shaped blobs over Iroh.",
    );
    PlayResponse {
        ok: true,
        filename: stream.filename(),
        bytes: stream.bytes().len(),
        content_blobs,
        media_path: "/media/".to_owned().concat(stream.saved_name().as_str()),
        message,
    }
}

/// To give the descriptor's own key is to give none.
pub proof fn own_key_changes_nothing(sd_key: Seq<char>)
    ensures
        fetch_key(Some(sd_key), sd_key) == fetch_key(None, sd_key),
        play_key(Some(sd_key), sd_key) == play_key(None, sd_key),
        fetch_key(None, sd_key) == sd_key,
        play_key(None, sd_key) == sd_key,
{
}

/// A stream is its blobs' plaintexts in the descriptor's order: once as many plaintexts were
/// appended as the descriptor has blobs, the output is their concatenation.
pub proof fn stream_is_its_plaintexts(start: AssemblyView, plains: Seq<Seq<u8>>)
    requires
        start.done == 0,
        start.output.len() == 0,
    ensures
        start.appended_all(plains).done == plains.len(),
        start.appended_all(plains).output == plains.flatten(),
        start.appended_all(plains).blobs == start.blobs,
        start.appended_all(plains).key == start.key,
        start.appended_all(plains).sd_hash == start.sd_hash,
        start.appended_all(plains).filename == start.filename,
    decreases plains.len(),
{
    plains.lemma_flatten_and_flatten_alt_are_equivalent();
    if plains.len() > 0 {
        let front = plains.drop_last();
        stream_is_its_plaintexts(start, front);
        front.lemma_flatten_and_flatten_alt_are_equivalent();
    } else {
        assert(start.output =~= plains.flatten());
    }
}

/// The blobs of a descriptor are viewed in its order, each with its own hash and initialization
/// vector.
pub proof fn entries_keep_their_order(blobs: Seq<BlobEntry>, i: int)
    requires
        0 <= i < blobs.len(),
    ensures
        entries(blobs).len() == blobs.len(),
        entries(blobs)[i].hash == blobs[i].blob_hash@,
        entries(blobs)[i].iv == blobs[i].iv@,
{
}

/// The view of an optional text has that text, if there is one.
pub proof fn text_view_is_whole(text: Option<String>)
    ensures
        text matches Some(s) ==> text_view(text) == Some(s@),
        text is None ==> text_view(text) is None,
{
}

/// A key that is given takes the place of the descriptor's, except that to play, an empty one does
/// not.
pub proof fn given_key_goes_first(given: Seq<char>, sd_key: Seq<char>)
    ensures
        fetch_key(Some(given), sd_key) == given,
        given.len() > 0 ==> play_key(Some(given), sd_key) == given,
        play_key(Some(Seq::empty()), sd_key) == sd_key,
        fetch_key(None, sd_key) == sd_key,
        play_key(None, sd_key) == sd_key,
{
}

/// Blobs are asked for in order: after as many plaintexts as `plains` has were appended, the blob
/// to fetch, check and decrypt next is the one at that position.
pub proof fn blobs_are_asked_for_in_order(start: AssemblyView, plains: Seq<Seq<u8>>)
    requires
        start.done == 0,
        plains.len() < start.blobs.len(),
    ensures
        start.appended_all(plains).done == plains.len(),
        start.appended_all(plains).blobs == start.blobs,
        start.appended_all(plains).current().hash == start.blobs[plains.len() as int].hash,
        start.appended_all(plains).current().iv == start.blobs[plains.len() as int].iv,
        start.appended_all(plains).key == start.key,
    decreases plains.len(),
{
    if plains.len() > 0 {
        blobs_are_asked_for_in_order(start, plains.drop_last());
    }
}

/// A whole stream: the assembly of a descriptor asks for the descriptor's first blob first, after
/// each plaintext for the blob that the descriptor has next, and ends with the plaintexts in
/// that order.
pub proof fn stream_follows_its_descriptor(
    sd_hash: Seq<char>,
    sd: StreamDescriptor,
    key: Seq<char>,
    plains: Seq<Seq<u8>>,
)
    ensures
        starts_with_descriptor(assembly_start(sd_hash, sd, key), sd_hash, sd),
        assembly_start(sd_hash, sd, key).key == key,
        plains.len() < sd.blobs@.len() ==> {
            let next = assembly_start(sd_hash, sd, key).appended_all(plains).current();
            &&& next.hash == sd.blobs@[plains.len() as int].blob_hash@
            &&& next.iv == sd.blobs@[plains.len() as int].iv@
        },
        assembly_start(sd_hash, sd, key).appended_all(plains).output == plains.flatten(),
{
    let start = assembly_start(sd_hash, sd, key);
    if plains.len() < sd.blobs@.len() {
        blobs_are_asked_for_in_order(start, plains);
    }
    stream_is_its_plaintexts(start, plains);
}

} // verus!
