//! Client-side engine for the X11 wire protocol: request/reply multiplexing,
//! write buffering, sequence-number bookkeeping, big-request reframing,
//! extension-metadata caching, and resource-identifier allocation.
//!
//! The engine is sans-I/O: it decides what bytes must go onto the transport
//! and keeps the protocol state, while an embedding driver owns the socket,
//! pumps incoming packets in, and drains outgoing bytes.
//!
//! Two scope decisions hold throughout. First, the engine fixes
//! little-endian multi-byte wire fields, while the handshake declares the
//! host's byte order to the server: the crate therefore assumes a
//! little-endian host. Second, descriptor passing happens at the transport,
//! outside the engine: the issue-request-expect-reply-with-descriptors
//! operation is out of scope, requests whose replies would carry file
//! descriptors are never dispatched, and outgoing descriptors are tracked
//! as counts while the driver queues the real descriptors alongside.

pub mod connection;
pub mod errors;
pub mod extcache;
pub mod handshake;
pub mod idalloc;
pub mod iov;
pub mod length;
pub mod proto;
pub mod requests;
pub mod setup;
pub mod writebuf;
