//! An interface compiler for IPC services.
//!
//! Given a service interface definition — an ordered list of method
//! signatures — this library synthesizes per-method input and output record
//! declarations, assigns each method a stable wire ordinal equal to its
//! declaration position, and builds a dispatch table. A generated artifact,
//! bound to a handler, answers framed requests: a two-byte little-endian
//! ordinal selects the method, the rest of the request is the encoded input
//! record, and the response carries the encoded output record, or nothing
//! for a method without a return type.

pub mod analyzer;
pub mod codec;
pub mod emitter;
pub mod error;
pub mod interface;
pub mod laws;
pub mod model;
pub mod records;
