//! Blob transfer for LBRY-shaped content: hashes, tickets, the wire protocol, the blob store of
//! a superpeer, the assembly of streams, and the rules of the command line and the companion.
//!
//! Everything here computes on text and bytes. Whoever uses the library moves them: it says what
//! to receive, load, store, fetch or decrypt next, and is told what came of it.

pub mod hash;
pub mod media;
pub mod protocol;
pub mod reply;
pub mod report;
pub mod serve;
pub mod staging;
pub mod store;
pub mod stream;
pub mod text;
pub mod ticket;
pub mod transfer;
pub mod upload;
pub mod wire;

pub use hash::verify_blob_hash;
pub use protocol::{ALPN, MAX_BLOB_BYTES};
pub use serve::serve_one;
pub use store::FsBlobStore;
pub use ticket::{decode_ticket, encode_ticket};
