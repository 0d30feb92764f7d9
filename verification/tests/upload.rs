use lbry_superpeer::hash::{blob_hash_hex, HashMismatch};
use lbry_superpeer::protocol::{encode_request, Request};
use lbry_superpeer::reply::Status;
use lbry_superpeer::report::{
    companion_lines, fetched_line, not_a_directory, packed_lines, superpeer_lines, uploaded_line,
};
use lbry_superpeer::staging::PathStyle;
use lbry_superpeer::upload::{
    error_response, form_field, upload_response, DirUpload, FormField, UploadError, UploadForm,
    UploadStep,
};

#[test]
fn a_directory_is_uploaded_in_order() {
    let blobs: [&[u8]; 3] = [b"x", b"", b"zz"];
    let mut upload = DirUpload::new(blobs.iter().map(|b| blob_hash_hex(b)).collect());
    for blob in blobs {
        let step = match upload.next() {
            UploadStep::Load(step) => step,
            UploadStep::Done(_) => panic!("blobs are left"),
        };
        assert_eq!(step.hash(), blob_hash_hex(blob));
        let put = match step.accept(blob.to_vec()) {
            Ok(put) => put,
            Err(_) => panic!("the blob has its hash"),
        };
        let request = Request::PutBlob { hash: blob_hash_hex(blob), body: blob.to_vec() };
        assert_eq!(Ok(put.request().clone()), encode_request(&request));
        upload = match put.answered(Status::Done) {
            Ok(upload) => upload,
            Err(_) => panic!("the blob was stored"),
        };
    }
    assert!(matches!(upload.next(), UploadStep::Done(3)));
}

#[test]
fn an_upload_stops_on_a_wrong_blob() {
    match DirUpload::new(vec![blob_hash_hex(b"x")]).next() {
        UploadStep::Load(step) => {
            assert_eq!(step.accept(b"y".to_vec()).err(), Some(HashMismatch));
        }
        UploadStep::Done(_) => panic!("a blob is left"),
    }
}

#[test]
fn an_upload_stops_on_a_refusal() {
    for status in [Status::BadRequest, Status::HashMismatch, Status::NotFound, Status::Other(9)] {
        let step = match DirUpload::new(vec![blob_hash_hex(b"x")]).next() {
            UploadStep::Load(step) => step,
            UploadStep::Done(_) => panic!("a blob is left"),
        };
        match step.accept(b"x".to_vec()) {
            Ok(put) => assert_eq!(put.answered(status).err(), Some(status)),
            Err(_) => panic!("the blob has its hash"),
        }
    }
    assert!(matches!(DirUpload::new(vec![]).next(), UploadStep::Done(0)));
}

#[test]
fn fields_of_the_form() {
    assert_eq!(form_field(Some("ticket")), FormField::Ticket);
    assert_eq!(form_field(Some("file")), FormField::File);
    assert_eq!(form_field(Some("File")), FormField::Other);
    assert_eq!(form_field(Some("")), FormField::Other);
    assert_eq!(form_field(None), FormField::Other);
}

#[test]
fn a_complete_form() {
    let mut form = UploadForm::new();
    form.set_ticket(" first ".to_string());
    form.set_file(Some("a.txt".to_string()), vec![1]);
    form.set_file(None, vec![2, 3]);
    form.set_ticket("\n second\t".to_string());
    let job = form.check(PathStyle::Unix).unwrap();
    assert_eq!(job.ticket, "second");
    assert_eq!(job.filename, "a.txt");
    assert_eq!(job.data, vec![2, 3]);
}

#[test]
fn a_file_without_a_name() {
    let mut form = UploadForm::new();
    form.set_ticket("t".to_string());
    form.set_file(None, vec![0]);
    assert_eq!(form.check(PathStyle::Unix).unwrap().filename, "upload.bin");
}

#[test]
fn a_form_names_the_staged_file() {
    for (style, name, staged) in [
        (PathStyle::Unix, "../../x", ".._.._x"),
        (PathStyle::Unix, "/tmp/x", "_tmp_x"),
        (PathStyle::Unix, "a\\b", "a\\b"),
        (PathStyle::Unix, "a/b", "a/b"),
        (PathStyle::Windows, "..\\x", ".._x"),
        (PathStyle::Windows, "a\\b", "a\\b"),
    ] {
        let mut form = UploadForm::new();
        form.set_ticket("t".to_string());
        form.set_file(Some(name.to_string()), vec![0]);
        assert_eq!(form.check(style).unwrap().filename, staged);
    }
}

#[test]
fn incomplete_forms() {
    assert_eq!(UploadForm::new().check(PathStyle::Unix).unwrap_err(), UploadError::TicketRequired);

    let mut form = UploadForm::new();
    form.set_ticket(" \u{3000}".to_string());
    form.set_file(None, vec![]);
    assert_eq!(form.check(PathStyle::Unix).unwrap_err(), UploadError::TicketRequired);

    let mut form = UploadForm::new();
    form.set_ticket("t".to_string());
    assert_eq!(form.check(PathStyle::Unix).unwrap_err(), UploadError::FileRequired);

    let mut form = UploadForm::new();
    form.set_ticket("t".to_string());
    form.set_file(Some("n".to_string()), vec![]);
    assert_eq!(form.check(PathStyle::Unix).unwrap_err(), UploadError::EmptyFile);
}

#[test]
fn errors_in_words() {
    assert_eq!(UploadError::TicketRequired.message(), "ticket required");
    assert_eq!(UploadError::FileRequired.message(), "file required");
    assert_eq!(UploadError::EmptyFile.message(), "empty file");
    let r = error_response("bad name".to_string());
    assert_eq!((r.status, r.ok, r.error.as_str()), (500, false, "bad name"));
}

#[test]
fn the_answer_to_upload() {
    let r = upload_response("a.wav", "abcd", 12);
    assert!(r.ok);
    assert_eq!(r.blobs_uploaded, 12);
    assert_eq!(r.sd_hash.as_deref(), Some("abcd"));
    assert_eq!(
        r.message,
        "Packed 'a.wav' and uploaded 12 blob(s). sd_hash=abcd — any peer can now GetBlob this stream from the superpeer."
    );
}

#[test]
fn printed_lines() {
    assert_eq!(
        packed_lines("d", "h", "k", "f"),
        vec!["Packed OK", "  blob_dir   = d", "  sd_hash    = h", "  stream_key = k", "  filename   = f"]
    );
    let rule = "=".repeat(40);
    assert_eq!(
        superpeer_lines("b", "i", "t"),
        vec![
            rule.as_str(),
            "LBRY superpeer (download + upload over Iroh)",
            "  blobs       = b",
            "  endpoint_id = i",
            "  ticket      = t",
            rule.as_str(),
            "Peers may GetBlob and PutBlob (hash-verified store).",
            "Ctrl+C to stop.",
        ]
    );
    assert_eq!(
        companion_lines("127.0.0.1:8787"),
        vec![
            "Companion listening on http://127.0.0.1:8787",
            "  Play:   paste superpeer ticket + sd_hash",
            "  Upload: paste ticket + choose a file (packed then PutBlob over Iroh)",
        ]
    );
    assert_eq!(fetched_line(1024, "o.bin", 3), "Wrote 1024 bytes to o.bin (3 content blobs)");
    assert_eq!(uploaded_line(2), "Uploaded 2 blob(s) to superpeer");
    assert_eq!(not_a_directory("p"), "blobs path is not a directory: p");
}
