//! A client library for a generative-language API whose tool-calling
//! subsystem is verified: structural schema derivation, a tool registry
//! with overwrite semantics, a dispatcher that converts every failure
//! into a well-formed function response, a bounded conversation loop,
//! and an incremental stream decoder that is independent of how the
//! bytes are chunked.
//!
//! - [`json`], [`render`], [`parse`]: JSON values, their canonical
//!   text, and a parser proved against the same model.
//! - [`message`]: conversation turns and parts with their wire format.
//! - [`schema`], [`tools`]: declared input shapes, schema derivation,
//!   the registry, the dispatcher, and the handler context.
//! - [`request`], [`response`], [`safety`], [`files`]: requests and
//!   their interpretation, decoded responses, and the value objects
//!   around them.
//! - [`stream`]: the frame decoder for the streaming transport.
//! - [`convo`]: the send, inspect, dispatch, append, resend loop.
//!
//! Network transport itself stays outside the library: callers hand in
//! status codes, bodies and byte chunks, and get plain values back.

pub mod convo;
pub mod files;
pub mod json;
pub mod message;
pub mod parse;
pub mod render;
pub mod request;
pub mod response;
pub mod safety;
pub mod schema;
pub mod stream;
pub mod strutil;
pub mod tools;
