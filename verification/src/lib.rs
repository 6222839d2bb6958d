//! A minimal HTTP/1.1 server library: hand-written parsing of the request
//! line and headers, routing over a fixed set of paths (echo, user-agent
//! reflection, file read and write), and byte-exact response framing, with
//! optional gzip compression of echo bodies.
//!
//! The library is pure: it turns the bytes read from a connection into either
//! finished response bytes or a file-store action, and turns the action's
//! outcome into response bytes. Sockets, threads and the filesystem stay with
//! the caller.

pub mod bytes;
pub mod err;
pub mod headers;
pub mod literals;
pub mod request;
pub mod route;
pub mod gzip;
pub mod response;
pub mod connection;
pub mod laws;
