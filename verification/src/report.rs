//! The lines that the command line prints.

use vstd::prelude::*;

use crate::store::texts;
use crate::text::{decimal, decimal_text};

verus! {

fn line(front: &str, text: &str) -> (r: String)
    ensures
        r@ == front@ + text@,
{
    front.to_owned().concat(text)
}

/// The lines for a file that was packed.
pub fn packed_lines(blob_dir: &str, sd_hash: &str, stream_key: &str, filename: &str) -> (r: Vec<
    String,
>)
    ensures
        texts(r@) == seq![
            "Packed OK"@,
            "  blob_dir   = "@ + blob_dir@,
            "  sd_hash    = "@ + sd_hash@,
            "  stream_key = "@ + stream_key@,
            "  filename   = "@ + filename@,
        ],
{
    let mut out: Vec<String> = Vec::new();
    out.push("Packed OK".to_owned());
    out.push(line("  blob_dir   = ", blob_dir));
    out.push(line("  sd_hash    = ", sd_hash));
    out.push(line("  stream_key = ", stream_key));
    out.push(line("  filename   = ", filename));
    assert(texts(out@) =~= seq![
        "Packed OK"@,
        "  blob_dir   = "@ + blob_dir@,
        "  sd_hash    = "@ + sd_hash@,
        "  stream_key = "@ + stream_key@,
        "  filename   = "@ + filename@,
    ]);
    out
}

/// The lines for a superpeer that is ready.
pub fn superpeer_lines(blobs: &str, endpoint_id: &str, ticket: &str) -> (r: Vec<String>)
    ensures
        texts(r@) == seq![
            "========================================"@,
            "LBRY superpeer (download + upload over Iroh)"@,
            "  blobs       = "@ + blobs@,
            "  endpoint_id = "@ + endpoint_id@,
            "  ticket      = "@ + ticket@,
            "========================================"@,
            "Peers may GetBlob and PutBlob (hash-verified store)."@,
            "Ctrl+C to stop."@,
        ],
{
    let mut out: Vec<String> = Vec::new();
    out.push("========================================".to_owned());
    out.push("LBRY superpeer (download + upload over Iroh)".to_owned());
    out.push(line("  blobs       = ", blobs));
    out.push(line("  endpoint_id = ", endpoint_id));
    out.push(line("  ticket      = ", ticket));
    out.push("========================================".to_owned());
    out.push("Peers may GetBlob and PutBlob (hash-verified store).".to_owned());
    out.push("Ctrl+C to stop.".to_owned());
    assert(texts(out@) =~= seq![
        "========================================"@,
        "LBRY superpeer (download + upload over Iroh)"@,
        "  blobs       = "@ + blobs@,
        "  endpoint_id = "@ + endpoint_id@,
        "  ticket      = "@ + ticket@,
        "========================================"@,
        "Peers may GetBlob and PutBlob (hash-verified store)."@,
        "Ctrl+C to stop."@,
    ]);
    out
}

/// The lines for a companion that listens.
pub fn companion_lines(listen: &str) -> (r: Vec<String>)
    ensures
        texts(r@) == seq![
            "Companion listening on http://"@ + listen@,
            "  Play:   paste superpeer ticket + sd_hash"@,
            "  Upload: paste ticket + choose a file (packed then PutBlob over Iroh)"@,
        ],
{
    let mut out: Vec<String> = Vec::new();
    out.push(line("Companion listening on http://", listen));
    out.push("  Play:   paste superpeer ticket + sd_hash".to_owned());
    out.push("  Upload: paste ticket + choose a file (packed then PutBlob over Iroh)".to_owned());
    assert(texts(out@) =~= seq![
        "Companion listening on http://"@ + listen@,
        "  Play:   paste superpeer ticket + sd_hash"@,
        "  Upload: paste ticket + choose a file (packed then PutBlob over Iroh)"@,
    ]);
    out
}

/// The line for a stream that was fetched into a file.
pub fn fetched_line(bytes: usize, out: &str, content_blobs: usize) -> (r: String)
    ensures
        r@ == "Wrote "@ + decimal(bytes as nat) + " bytes to "@ + out@ + " ("@ + decimal(
            content_blobs as nat,
        ) + " content blobs)"@,
{
    line("Wrote ", decimal_text(bytes as u64).as_str()).concat(" bytes to ").concat(out).concat(
        " (",
    ).concat(decimal_text(content_blobs as u64).as_str()).concat(" content blobs)")
}

/// The line for a directory that was uploaded.
pub fn uploaded_line(blobs: usize) -> (r: String)
    ensures
        r@ == "Uploaded "@ + decimal(blobs as nat) + " blob(s) to superpeer"@,
{
    line("Uploaded ", decimal_text(blobs as u64).as_str()).concat(" blob(s) to superpeer")
}

/// The error for blobs to upload that are not in a directory.
pub fn not_a_directory(path: &str) -> (r: String)
    ensures
        r@ == "blobs path is not a directory: "@ + path@,
{
    line("blobs path is not a directory: ", path)
}

} // verus!
