//! A verified core for a WebDAV gateway onto a remote, id-addressed file host.
//!
//! The library holds the pure logic of the gateway: decoding the remote's
//! JSON envelopes and tagged content payloads, the directory cache, the
//! path resolver, and the decision rules behind the streaming and
//! filesystem operations. All I/O stays outside; callers drive the state
//! machines defined here and hand back what the network returned.

pub mod config;
pub mod dircache;
pub mod envelope;
pub mod error;
pub mod fetch;
pub mod fsops;
pub mod json;
pub mod jsontext;
pub mod model;
pub mod payload;
pub mod replies;
pub mod resolver;
pub mod stream;
pub mod strutil;
pub mod webtext;
