//! Host side of a browser native-messaging channel, without the I/O.
//!
//! A host talks to the browser over its standard streams in length-prefixed
//! frames. This crate holds what such a host decides and computes: the wire
//! format, the framed transport over explicit in-memory streams, the read
//! dispatcher that turns a stream of frames into a stream of messages, and the
//! plans by which a host is registered with the browser. Reading and writing
//! the real streams, the registry and the file system is left to the caller.

pub mod dispatch;
pub mod frame;
pub mod install;
pub mod stream;
pub mod transport;
