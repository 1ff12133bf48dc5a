//! A JSON-RPC 2.0 client transport: request envelopes with fresh identifiers,
//! their exact wire text, reply classification and outcome correlation, and the
//! configuration of the HTTP connection that carries them.

pub mod wire;
pub mod call;
pub mod reply;
pub mod auth;
pub mod builder;
pub mod transport;
