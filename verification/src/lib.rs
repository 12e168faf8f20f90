//! Client-side engine for a JSON-RPC tool-invocation protocol carried over a
//! framed byte-stream transport.
//!
//! The crate verifies the parts with real correctness content: the request
//! correlation engine (unique id generation, the pending-request registry and
//! the dispatch decisions around it), the wire-envelope codec, and the
//! decision logic of the client facade. Transport plumbing (process spawning,
//! line-framed I/O, the async loop) lives outside the library and drives it
//! through plain values.

pub mod codec;
pub mod engine;
pub mod errors;
pub mod text;
pub mod types;
