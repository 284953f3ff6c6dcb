//! A minimal HTTP/1.1 server library: validated message types, fallible
//! builders, a byte-level wire codec, and a router that dispatches requests
//! by path prefix and method.
//!
//! The crate covers the message data model (`method`, `uri`, `version`,
//! `status`, `header`), builder-based construction of requests and responses
//! (`request`, `response`), the wire codec (`codec`), and route resolution
//! (`router`). Listening sockets, worker threads and the accept loop are the
//! embedding application's concern; they drive this library with plain byte
//! buffers.

pub mod body;
pub mod bytes_util;
pub mod codec;
pub mod error;
pub mod header;
pub mod method;
pub mod request;
pub mod response;
pub mod router;
pub mod status;
pub mod uri;
pub mod version;
