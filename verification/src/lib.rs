//! A minimal HTTP/1.1 static-file-server core.
//!
//! The library holds the verified logic of the server: request parsing,
//! response framing, MIME resolution, responder decisions and directory
//! listing rendering, all over plain byte vectors. The surrounding binary
//! owns the sockets and the filesystem and hands this library nothing but
//! bytes and plain values.

pub mod conn;
pub mod framing;
pub mod listing;
pub mod mime;
pub mod request;
pub mod responder;
pub mod scan;
pub mod stream;
pub mod text;
