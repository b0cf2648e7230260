//! A minimal HTTP/1.1 request-processing engine with verified contracts:
//! framing a byte stream into a request, routing it to a fixed set of
//! handlers, guarding static-file access against path traversal, negotiating
//! gzip encoding, and serializing the response byte-exactly.
//!
//! The crate never touches a socket or the filesystem itself. The wire
//! reader in [`server`] is driven by line and body events, and the router in
//! [`handler`] returns a description of any file access it wants; the
//! process around the library performs the reads and writes and hands the
//! results back.

pub mod handler;
pub mod interface;
pub mod server;
pub mod text;
pub mod utils;
