//! A sandboxed static file server, without the sockets.
//!
//! The crate holds everything such a server decides: how a request line is
//! read, how paths are escaped and unescaped, which paths lie inside the
//! served directory, what a directory listing and a response look like on the
//! wire, and in which order a connection moves through its states. Reading
//! from the network and the filesystem is left to the caller, who feeds the
//! outcomes back in as events.

pub mod codec;
pub mod handler;
pub mod listing;
pub mod nesting;
pub mod request;
pub mod response;
pub mod run;
pub mod sandbox;
pub mod text;
