//! Uploads: a directory of blobs to a superpeer, and a file through the companion.

use vstd::prelude::*;

use crate::hash::{hash_matches, matching_hash_is_hex, verify_blob_hash, HashMismatch};
use crate::protocol::{encode_request, request_bytes, Request, RequestView, MAX_BLOB_BYTES};
use crate::reply::Status;
use crate::serve::{blob_view, serve, upload_outcome, ServeView};
use crate::staging::{stage_name, staged_name, PathStyle};
use crate::store::texts;
use crate::stream::text_view;
use crate::text::{
    decimal, decimal_text, is_white, same_text, trim_text, trimmed, trimming_cuts_white_ends,
};

verus! {

/// How far the upload of a directory has got.
pub struct DirUploadView {
    /// The hashes of its blobs.
    pub hashes: Seq<Seq<char>>,
    /// The number of blobs that the superpeer stored.
    pub uploaded: nat,
}

impl DirUploadView {
    /// The upload of the blobs with these hashes, before any was stored.
    pub open spec fn start(hashes: Seq<Seq<char>>) -> DirUploadView {
        DirUploadView { hashes, uploaded: 0 }
    }

    /// The hash of the blob that comes next.
    pub open spec fn current(self) -> Seq<char> {
        self.hashes[self.uploaded as int]
    }

    /// The request that uploads the blob that comes next, if `body` is its contents.
    pub open spec fn message(self, body: Seq<u8>) -> Seq<u8> {
        request_bytes(RequestView::PutBlob { hash: self.current(), body })
    }

    /// The upload after the superpeer stored the blob that came next.
    pub open spec fn stored(self) -> DirUploadView {
        DirUploadView { uploaded: self.uploaded + 1, ..self }
    }

    /// The upload after the superpeer stored the next `n` blobs, one after the other.
    pub open spec fn stored_times(self, n: nat) -> DirUploadView
        decreases n,
    {
        if n == 0 {
            self
        } else {
            self.stored_times((n - 1) as nat).stored()
        }
    }
}

/// The upload of a directory, before a blob is loaded.
pub struct DirUpload {
    hashes: Vec<String>,
    uploaded: usize,
}

/// An upload that waits for the contents of its next blob.
pub struct BlobUpload {
    upload: DirUpload,
}

/// An upload whose next blob was checked, and is to be sent.
pub struct BlobPut {
    upload: DirUpload,
    request: Vec<u8>,
}

/// What the upload of a directory needs next.
pub enum UploadStep {
    /// The contents of a blob.
    Load(BlobUpload),
    /// Nothing: this many blobs were uploaded.
    Done(usize),
}

impl View for DirUpload {
    type V = DirUploadView;

    closed spec fn view(&self) -> DirUploadView {
        DirUploadView { hashes: texts(self.hashes@), uploaded: self.uploaded as nat }
    }
}

impl View for BlobUpload {
    type V = DirUploadView;

    closed spec fn view(&self) -> DirUploadView {
        self.upload@
    }
}

impl View for BlobPut {
    type V = DirUploadView;

    closed spec fn view(&self) -> DirUploadView {
        self.upload@
    }
}

impl DirUpload {
    #[verifier::type_invariant]
    spec fn valid(self) -> bool {
        self.uploaded <= self.hashes@.len()
    }

    /// The upload of the blobs with these hashes, in this order.
    pub fn new(hashes: Vec<String>) -> (r: DirUpload)
        ensures
            r@ == DirUploadView::start(texts(hashes@)),
            r@.uploaded == 0,
            r@.hashes.len() == hashes@.len(),
            forall|i: int| 0 <= i < hashes@.len() ==> #[trigger] r@.hashes[i] == hashes@[i]@,
    {
        DirUpload { hashes, uploaded: 0 }
    }

    /// The next blob to load, or that every blob was uploaded.
    pub fn next(self) -> (r: UploadStep)
        ensures
            self@.uploaded <= self@.hashes.len(),
            r is Load <==> self@.uploaded < self@.hashes.len(),
            r matches UploadStep::Load(blob) ==> blob@ == self@,
            r matches UploadStep::Done(n) ==> n == self@.hashes.len() && n == self@.uploaded,
    {
        proof {
            use_type_invariant(&self);
        }
        if self.uploaded < self.hashes.len() {
            UploadStep::Load(BlobUpload { upload: self })
        } else {
            UploadStep::Done(self.uploaded)
        }
    }
}

impl BlobUpload {
    #[verifier::type_invariant]
    spec fn valid(self) -> bool {
        self.upload.uploaded < self.upload.hashes@.len()
    }

    /// The hash of the blob to load.
    pub fn hash(&self) -> (r: &str)
        ensures
            self@.uploaded < self@.hashes.len(),
            r@ == self@.current(),
            r@ == self@.hashes[self@.uploaded as int],
    {
        proof {
            use_type_invariant(self);
        }
        self.upload.hashes[self.upload.uploaded].as_str()
    }

    /// Checks the contents of the blob against its hash, and writes the request that uploads it.
    pub fn accept(self, data: Vec<u8>) -> (r: Result<BlobPut, HashMismatch>)
        ensures
            r is Ok <==> hash_matches(data@, self@.current()),
            r is Ok <==> hash_matches(data@, self@.hashes[self@.uploaded as int]),
            r matches Ok(put) ==> put@ == self@ && put.message() == self@.message(data@),
            r matches Ok(put) ==> put.message() == request_bytes(
                RequestView::PutBlob { hash: self@.hashes[self@.uploaded as int], body: data@ },
            ),
    {
        proof {
            use_type_invariant(&self);
        }
        match verify_blob_hash(data.as_slice(), self.hash()) {
            Ok(()) => {
                let request = Request::PutBlob {
                    hash: self.upload.hashes[self.upload.uploaded].clone(),
                    body: data,
                };
                match encode_request(&request) {
                    Ok(bytes) => Ok(BlobPut { upload: self.upload, request: bytes }),
                    Err(_) => {
                        assert(false);
                        Err(HashMismatch)
                    },
                }
            },
            Err(e) => Err(e),
        }
    }
}

impl BlobPut {
    #[verifier::type_invariant]
    spec fn valid(self) -> bool {
        self.upload.uploaded < self.upload.hashes@.len()
    }

    /// The bytes of the request.
    pub closed spec fn message(&self) -> Seq<u8> {
        self.request@
    }

    /// The bytes of the request.
    pub fn request(&self) -> (r: &Vec<u8>)
        ensures
            r@ == self.message(),
    {
        &self.request
    }

    /// Goes on after the superpeer's answer. The upload ends on every answer but that the blob
    /// was stored.
    pub fn answered(self, status: Status) -> (r: Result<DirUpload, Status>)
        ensures
            r is Ok <==> status == Status::Done,
            r matches Ok(upload) ==> upload@ == self@.stored(),
            r matches Ok(upload) ==> upload@.hashes == self@.hashes && upload@.uploaded
                == self@.uploaded + 1,
            r matches Err(e) ==> e == status,
    {
        proof {
            use_type_invariant(&self);
        }
        let upload = self.upload;
        let count: usize = upload.hashes.len();
        assert(upload.uploaded < count);
        match status {
            Status::Done => Ok(
                DirUpload { hashes: upload.hashes, uploaded: upload.uploaded + 1 },
            ),
            _ => Err(status),
        }
    }
}

/// The fields of the upload form that are taken up.
#[derive(Clone, Copy, Debug, PartialEq, Eq, Structural)]
pub enum FormField {
    Ticket,
    File,
    Other,
}

/// The field with this name.
pub open spec fn field_of(name: Option<Seq<char>>) -> FormField {
    if name == Some("ticket"@) {
        FormField::Ticket
    } else if name == Some("file"@) {
        FormField::File
    } else {
        FormField::Other
    }
}

/// What was read of the upload form.
pub struct UploadForm {
    pub ticket: String,
    pub file: Option<Vec<u8>>,
    pub filename: String,
}

/// What was read of the upload form, in terms of text and bytes.
pub struct UploadFormView {
    pub ticket: Seq<char>,
    pub file: Option<Seq<u8>>,
    pub filename: Seq<char>,
}

/// The contents of a field of the upload form.
pub enum FieldView {
    Ticket(Seq<char>),
    File { name: Option<Seq<char>>, data: Seq<u8> },
    Other,
}

impl View for UploadForm {
    type V = UploadFormView;

    open spec fn view(&self) -> UploadFormView {
        UploadFormView {
            ticket: self.ticket@,
            file: blob_view(self.file),
            filename: self.filename@,
        }
    }
}

impl UploadFormView {
    /// The form before any field was read.
    pub open spec fn blank() -> UploadFormView {
        UploadFormView { ticket: Seq::empty(), file: None, filename: "upload.bin"@ }
    }

    /// The form after one more field was read: it replaces what an earlier one gave.
    pub open spec fn with(self, field: FieldView) -> UploadFormView {
        match field {
            FieldView::Ticket(text) => UploadFormView { ticket: text, ..self },
            FieldView::File { name: Some(filename), data } => UploadFormView {
                file: Some(data),
                filename,
                ..self
            },
            FieldView::File { name: None, data } => UploadFormView { file: Some(data), ..self },
            FieldView::Other => self,
        }
    }

    /// The form after the given fields were read, one after the other.
    pub open spec fn with_all(self, fields: Seq<FieldView>) -> UploadFormView
        decreases fields.len(),
    {
        if fields.len() == 0 {
            self
        } else {
            self.with_all(fields.drop_last()).with(fields.last())
        }
    }
}

/// Why an upload form is turned down.
#[derive(Clone, Copy, Debug, PartialEq, Eq, Structural)]
pub enum UploadError {
    TicketRequired,
    FileRequired,
    EmptyFile,
}

/// A form that was found complete, with the name that its file is staged under.
#[derive(Debug)]
pub struct UploadJob {
    pub ticket: String,
    pub filename: String,
    pub data: Vec<u8>,
}

/// Whether a form is turned down, and why: the ticket is looked at first, then whether there is
/// a file, then whether it is empty.
pub open spec fn form_error(form: UploadFormView) -> Option<UploadError> {
    if trimmed(form.ticket).len() == 0 {
        Some(UploadError::TicketRequired)
    } else {
        match form.file {
            None => Some(UploadError::FileRequired),
            Some(data) => if data.len() == 0 {
                Some(UploadError::EmptyFile)
            } else {
                None
            },
        }
    }
}

impl UploadError {
    /// The text of the error.
    pub open spec fn text(self) -> Seq<char> {
        match self {
            UploadError::TicketRequired => "ticket required"@,
            UploadError::FileRequired => "file required"@,
            UploadError::EmptyFile => "empty file"@,
        }
    }

    /// The text of the error.
    pub fn message(self) -> (r: &'static str)
        ensures
            r@ == self.text(),
            self == UploadError::TicketRequired ==> r@ == "ticket required"@,
            self == UploadError::FileRequired ==> r@ == "file required"@,
            self == UploadError::EmptyFile ==> r@ == "empty file"@,
    {
        match self {
            UploadError::TicketRequired => "ticket required",
            UploadError::FileRequired => "file required",
            UploadError::EmptyFile => "empty file",
        }
    }
}

/// Tells which field a name stands for.
pub fn form_field(name: Option<&str>) -> (r: FormField)
    ensures
        name matches Some(s) ==> r == field_of(Some(s@)),
        name is None ==> r == field_of(None),
        name matches Some(s) ==> (r == FormField::Ticket <==> s@ == "ticket"@) && (r
            == FormField::File <==> s@ == "file"@),
        name is None ==> r == FormField::Other,
{
    proof {
        fields_go_by_name(match name {
            Some(s) => s@,
            None => Seq::empty(),
        });
    }
    match name {
        Some(s) => if same_text(s, "ticket") {
            FormField::Ticket
        } else if same_text(s, "file") {
            FormField::File
        } else {
            FormField::Other
        },
        None => FormField::Other,
    }
}

impl UploadForm {
    /// The form before any field was read.
    pub fn new() -> (r: UploadForm)
        ensures
            r@ == UploadFormView::blank(),
            r.ticket@.len() == 0,
            r.file is None,
            r.filename@ == "upload.bin"@,
    {
        UploadForm { ticket: String::new(), file: None, filename: "upload.bin".to_owned() }
    }

    /// Takes the ticket field up.
    pub fn set_ticket(&mut self, text: String)
        ensures
            final(self)@ == old(self)@.with(FieldView::Ticket(text@)),
            final(self).ticket@ == text@,
            final(self).file == old(self).file,
            final(self).filename == old(self).filename,
    {
        self.ticket = text;
    }

    /// Takes the file field up; it may name the file.
    pub fn set_file(&mut self, name: Option<String>, data: Vec<u8>)
        ensures
            final(self)@ == old(self)@.with(
                FieldView::File { name: text_view(name), data: data@ },
            ),
            final(self).ticket == old(self).ticket,
            final(self).file matches Some(file) && file@ == data@,
            name matches Some(filename) ==> final(self).filename@ == filename@,
            name is None ==> final(self).filename == old(self).filename,
    {
        if let Some(filename) = name {
            self.filename = filename;
        }
        self.file = Some(data);
    }

    /// Checks that the form is complete, trims its ticket, and sees to it that the name of its
    /// file does not lead out of the directory that the file is staged in.
    pub fn check(self, style: PathStyle) -> (r: Result<UploadJob, UploadError>)
        ensures
            r matches Err(e) ==> form_error(self@) == Some(e),
            r matches Ok(job) ==> form_error(self@) is None && job.ticket@ == trimmed(
                self@.ticket,
            ) && job.filename@ == staged_name(style, self@.filename) && Some(job.data@)
                == self@.file,
            r is Ok <==> (exists|i: int|
                0 <= i < self.ticket@.len() && !is_white(#[trigger] self.ticket@[i])) && (
            self.file matches Some(file) && file@.len() > 0),
            r matches Ok(job) ==> job.ticket@ == trimmed(self.ticket@) && job.filename@
                == staged_name(style, self.filename@) && (self.file matches Some(file)
                && job.data@ == file@),
    {
        proof {
            trimming_cuts_white_ends(self.ticket@);
        }
        let ticket = trim_text(self.ticket.as_str());
        if ticket.as_str().is_empty() {
            return Err(UploadError::TicketRequired);
        }
        match self.file {
            None => Err(UploadError::FileRequired),
            Some(data) => if data.len() == 0 {
                Err(UploadError::EmptyFile)
            } else {
                Ok(UploadJob { ticket, filename: stage_name(style, self.filename), data })
            },
        }
    }
}

/// The answer to a finished upload.
#[derive(Debug)]
pub struct UploadResponse {
    pub ok: bool,
    pub blobs_uploaded: usize,
    pub sd_hash: Option<String>,
    pub message: String,
}

/// The answer once `filename` was packed under `sd_hash` and its blobs were uploaded.
pub fn upload_response(filename: &str, sd_hash: &str, blobs_uploaded: usize) -> (r: UploadResponse)
    ensures
        r.ok,
        r.blobs_uploaded == blobs_uploaded,
        r.sd_hash matches Some(hash) && hash@ == sd_hash@,
        r.message@ == "Packed '"@ + filename@ + "' and uploaded "@ + decimal(
            blobs_uploaded as nat,
        ) + " blob(s). sd_hash="@ + sd_hash@
            + " — any peer can now GetBlob this stream from the superpeer."@,
{
    let message = "Packed '".to_owned().concat(filename).concat("' and uploaded ").concat(
        decimal_text(blobs_uploaded as u64).as_str(),
    ).concat(" blob(s). sd_hash=").concat(sd_hash).concat(
        " — any peer can now GetBlob this stream from the superpeer.",
    );
    UploadResponse { ok: true, blobs_uploaded, sd_hash: Some(sd_hash.to_owned()), message }
}

/// The answer to a request that failed.
#[derive(Debug)]
pub struct ErrorResponse {
    pub status: u16,
    pub ok: bool,
    pub error: String,
}

/// The answer to a request that failed with this error: an internal error that carries its text.
pub fn error_response(error: String) -> (r: ErrorResponse)
    ensures
        r.status == 500,
        !r.ok,
        r.error@ == error@,
{
    ErrorResponse { status: 500, ok: false, error }
}

/// A whole upload: as long as blobs are left, the next message is the upload of the next blob of
/// the list; once the superpeer stored as many as the list has, none is left, and that is their
/// number.
pub proof fn upload_goes_through_the_list(hashes: Seq<Seq<char>>, bodies: Seq<Seq<u8>>)
    requires
        bodies.len() == hashes.len(),
    ensures
        forall|i: int|
            0 <= i < hashes.len() ==> {
                let upload = #[trigger] DirUploadView::start(hashes).stored_times(i as nat);
                &&& upload.hashes == hashes
                &&& upload.uploaded == i
                &&& upload.message(bodies[i]) == request_bytes(
                    RequestView::PutBlob { hash: hashes[i], body: bodies[i] },
                )
            },
        DirUploadView::start(hashes).stored_times(hashes.len()).hashes == hashes,
        DirUploadView::start(hashes).stored_times(hashes.len()).uploaded == hashes.len(),
{
    assert forall|i: int| 0 <= i <= hashes.len() implies {
        let upload = #[trigger] DirUploadView::start(hashes).stored_times(i as nat);
        upload.hashes == hashes && upload.uploaded == i
    } by {
        lemma_stored_times(hashes, i as nat);
    }
    lemma_stored_times(hashes, hashes.len());
}

proof fn lemma_stored_times(hashes: Seq<Seq<char>>, n: nat)
    ensures
        DirUploadView::start(hashes).stored_times(n).hashes == hashes,
        DirUploadView::start(hashes).stored_times(n).uploaded == n,
    decreases n,
{
    if n > 0 {
        lemma_stored_times(hashes, (n - 1) as nat);
    }
}

/// Whether the field is a file with a name.
pub open spec fn names_file(field: FieldView) -> bool {
    field matches FieldView::File { name, .. } && name is Some
}

/// Of several fields for one thing, the last one counts.
pub proof fn last_field_counts(form: UploadFormView, fields: Seq<FieldView>, i: int)
    requires
        0 <= i < fields.len(),
    ensures
        (forall|j: int| i < j < fields.len() ==> #[trigger] fields[j] !is Ticket) ==> (
        fields[i] matches FieldView::Ticket(text) ==> form.with_all(fields).ticket == text),
        (forall|j: int| i < j < fields.len() ==> #[trigger] fields[j] !is File) ==> (
        fields[i] matches FieldView::File { data, .. } ==> form.with_all(fields).file == Some(
            data,
        )),
        (forall|j: int| i < j < fields.len() ==> !names_file(#[trigger] fields[j])) ==> (
        fields[i] matches FieldView::File { name: Some(filename), .. } ==> form.with_all(
            fields,
        ).filename == filename),
    decreases fields.len(),
{
    if i < fields.len() - 1 {
        last_field_counts(form, fields.drop_last(), i);
        assert(fields.drop_last()[i] == fields[i]);
    }
}

/// A form without a ticket field, or without a file field, is turned down; one in which no field
/// names the file has the stock name.
pub proof fn missing_field_is_an_error(fields: Seq<FieldView>)
    ensures
        (forall|j: int| 0 <= j < fields.len() ==> #[trigger] fields[j] !is Ticket) ==> form_error(
            UploadFormView::blank().with_all(fields),
        ) == Some(UploadError::TicketRequired),
        (forall|j: int| 0 <= j < fields.len() ==> #[trigger] fields[j] !is File) ==> form_error(
            UploadFormView::blank().with_all(fields),
        ) is Some,
        (forall|j: int| 0 <= j < fields.len() ==> !names_file(#[trigger] fields[j]))
            ==> UploadFormView::blank().with_all(fields).filename == "upload.bin"@,
{
    lemma_untouched(fields);
}

proof fn lemma_untouched(fields: Seq<FieldView>)
    ensures
        (forall|j: int| 0 <= j < fields.len() ==> #[trigger] fields[j] !is Ticket)
            ==> UploadFormView::blank().with_all(fields).ticket == Seq::<char>::empty(),
        (forall|j: int| 0 <= j < fields.len() ==> #[trigger] fields[j] !is File)
            ==> UploadFormView::blank().with_all(fields).file is None,
        (forall|j: int| 0 <= j < fields.len() ==> !names_file(#[trigger] fields[j]))
            ==> UploadFormView::blank().with_all(fields).filename == "upload.bin"@,
    decreases fields.len(),
{
    if fields.len() > 0 {
        lemma_untouched(fields.drop_last());
        assert(forall|j: int|
            0 <= j < fields.len() - 1 ==> fields.drop_last()[j] == #[trigger] fields[j]);
    }
}

/// What an upload asks for, the superpeer stores: after `i` blobs were stored, the contents to load
/// are those with the hash at that place of the list, and every blob with that hash that is not
/// too large is sent so that the superpeer stores it under that hash.
pub proof fn asked_for_blob_is_stored(hashes: Seq<Seq<char>>, i: nat, body: Seq<u8>)
    requires
        i < hashes.len(),
        hashes[i as int].len() <= 255,
        body.len() <= MAX_BLOB_BYTES,
    ensures
        ({
            let upload = DirUploadView::start(hashes).stored_times(i);
            &&& upload.current() == hashes[i as int]
            &&& upload.hashes == hashes
            &&& upload.uploaded == i
            &&& hash_matches(body, upload.current()) ==> serve(upload.message(body)) == (
            ServeView::Store { hash: hashes[i as int], body })
        }),
{
    lemma_stored_times(hashes, i);
    if hash_matches(body, hashes[i as int]) {
        matching_hash_is_hex(body, hashes[i as int]);
        upload_outcome(hashes[i as int], body);
    }
}

/// A form is taken exactly if its ticket has a character that is not white space and its file has
/// a byte, however long they are; and each thing that is missing is told, the ticket first.
pub proof fn complete_form_is_taken(form: UploadFormView)
    ensures
        ({
            let ticket = exists|i: int|
                0 <= i < form.ticket.len() && !is_white(#[trigger] form.ticket[i]);
            &&& form_error(form) is None <==> ticket && (form.file matches Some(data) && data.len()
                > 0)
            &&& form_error(form) == Some(UploadError::TicketRequired) <==> !ticket
            &&& form_error(form) == Some(UploadError::FileRequired) <==> ticket && form.file is None
            &&& form_error(form) == Some(UploadError::EmptyFile) <==> ticket && (
            form.file matches Some(data) && data.len() == 0)
        }),
{
    trimming_cuts_white_ends(form.ticket);
}

/// A form is taken if the last of its ticket fields is not all white space and the last of its file
/// fields is not empty, whatever other fields it has.
pub proof fn complete_fields_are_taken(fields: Seq<FieldView>, i: int, j: int, k: int)
    requires
        0 <= i < fields.len(),
        0 <= j < fields.len(),
        fields[i] matches FieldView::Ticket(text) && 0 <= k < text.len() && !is_white(text[k]),
        fields[j] matches FieldView::File { data, .. } && data.len() > 0,
        forall|l: int| i < l < fields.len() ==> #[trigger] fields[l] !is Ticket,
        forall|l: int| j < l < fields.len() ==> #[trigger] fields[l] !is File,
    ensures
        form_error(UploadFormView::blank().with_all(fields)) is None,
{
    let form = UploadFormView::blank().with_all(fields);
    last_field_counts(UploadFormView::blank(), fields, i);
    last_field_counts(UploadFormView::blank(), fields, j);
    assert(!is_white(form.ticket[k]));
    complete_form_is_taken(form);
}

/// The ticket and the file are the fields with these names, and every other field is passed over.
pub proof fn fields_go_by_name(name: Seq<char>)
    ensures
        field_of(Some(name)) == FormField::Ticket <==> name == "ticket"@,
        field_of(Some(name)) == FormField::File <==> name == "file"@,
        field_of(None) == FormField::Other,
{
    reveal_strlit("ticket");
    reveal_strlit("file");
    assert("ticket"@.len() == 6 && "file"@.len() == 4);
}

/// The view of a form has what was read of it.
pub proof fn form_view_is_whole(form: UploadForm)
    ensures
        form@.ticket == form.ticket@,
        form@.filename == form.filename@,
        form.file matches Some(data) ==> form@.file == Some(data@),
        form.file is None ==> form@.file is None,
{
}

} // verus!
