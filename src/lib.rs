//! A minimal HTTP/1.1 request parser, router and response builder.
//!
//! The library works on raw bytes: it parses one request off a byte buffer,
//! decides what to answer (or which file to read or write), and frames the
//! response bytes. Sockets, threads and the file system stay with the caller.
pub mod bytes;
pub mod request;
pub mod response;
pub mod router;
pub mod laws;
pub mod worker;
