# lbry-superpeer

Blob transfer for LBRY-shaped content: a superpeer that serves and stores SHA-384 named blobs, a
client that fetches and assembles streams, and a localhost companion to play and upload.

`src/` is the library, verified with Verus. It computes on text and bytes and does no input or
output: it says what to receive, load, store, fetch or decrypt next, and is told what came of it.

| Module | Subject |
|--------|---------|
| `hash` | blob hashes and the check of a blob against its hash |
| `ticket` | tickets: the JSON of an address in URL-safe base64 |
| `wire`, `protocol`, `reply` | integers, requests and replies on the wire |
| `serve` | what a superpeer does with a request and with a connection |
| `store` | where a blob is looked for, and the file it is written to |
| `stream` | the assembly of a stream, and the answer to play |
| `upload` | the upload of a directory, and of a file through the companion |
| `transfer` | laws of uploads and downloads together |
| `staging` | where the file of an upload is staged |
| `media` | names and content types of assembled media |
| `report`, `text` | printed lines; characters, search, trimming, decimals |

Integers on the wire are big-endian.

`app/` is the program around the library: command line, Iroh transport, files and HTTP. Content
crypto and packing come from the `lbry_blob` crate.
